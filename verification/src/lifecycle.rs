//! The life of a container: how its saved state follows the runtime, when it
//! is restarted, and what starting, stopping, updating and deleting it do.
use vstd::prelude::*;
use crate::network::clean_container_network;
use crate::ports::{arg_views, port_forward_rules};
use crate::text::{concat, concat3, owned, views};

verus! {

/// What the runtime answered when asked for a container's state.
pub enum RuncState {
    /// The runtime could not be run.
    Unreachable,
    /// The runtime knows no such container.
    Missing,
    /// The runtime's answer did not parse.
    Unparsed,
    /// The runtime's answer: the status and process id it reported, if any.
    Reported { status: Option<String>, pid: Option<i64> },
}

/// The status and process id that a saved state takes from the runtime's
/// answer, or `None` when it stays as it is: a stopped container is not asked;
/// a container the runtime does not know is stopped if it was running or
/// created; a reported state (`stopped` and 0 standing in for what is not
/// reported, the id cut to 32 bits) replaces a differing one.
pub open spec fn reconciled(status: Seq<char>, pid: i32, q: RuncState) -> Option<(Seq<char>, i32)> {
    if status == "stopped"@ {
        None
    } else {
        match q {
            RuncState::Missing => if status == "running"@ || status == "created"@ {
                Some(("stopped"@, 0i32))
            } else {
                None
            },
            RuncState::Reported { status: s, pid: p } => {
                let rs = match s {
                    Some(x) => x@,
                    None => "stopped"@,
                };
                let rp = match p {
                    Some(x) => x as i32,
                    None => 0i32,
                };
                if status != rs || pid != rp {
                    Some((rs, rp))
                } else {
                    None
                }
            },
            _ => None,
        }
    }
}

/// The status and process id that a saved state takes from the runtime.
pub fn reconcile_state(status: &str, pid: i32, q: &RuncState) -> (r: Option<(String, i32)>)
    ensures
        match reconciled(status@, pid, *q) {
            Some((s, p)) => r matches Some((a, b)) && a@ == s && b == p,
            None => r is None,
        },
{
    let st = owned(status);
    let stopped = owned("stopped");
    if st == stopped {
        return None;
    }
    match q {
        RuncState::Missing => {
            let running = owned("running");
            let created = owned("created");
            if st == running || st == created {
                Some((owned("stopped"), 0))
            } else {
                None
            }
        },
        RuncState::Reported { status: s, pid: p } => {
            let rs = match s {
                Some(x) => x.clone(),
                None => owned("stopped"),
            };
            let rp: i32 = match p {
                Some(x) => *x as i32,
                None => 0,
            };
            if st != rs || pid != rp {
                Some((rs, rp))
            } else {
                None
            }
        },
        _ => None,
    }
}

/// Whether listing containers restarts this one: restarting is asked for, it
/// is stopped or failed, it is meant to run, and its policy is `always` or
/// `unless-stopped`.
pub open spec fn restarts(auto_restart: bool, status: Seq<char>, desired: Option<Seq<char>>, policy: Option<Seq<char>>) -> bool {
    &&& auto_restart
    &&& (status == "stopped"@ || status == "failed"@)
    &&& desired == Some("running"@)
    &&& (policy == Some("always"@) || policy == Some("unless-stopped"@))
}

/// Whether listing containers restarts this one.
pub fn should_auto_restart(auto_restart: bool, status: &str, desired: &Option<String>, policy: &Option<String>) -> (b: bool)
    ensures
        b == restarts(
            auto_restart,
            status@,
            crate::network::opt_text(*desired),
            crate::network::opt_text(*policy),
        ),
{
    if !auto_restart {
        return false;
    }
    let st = owned(status);
    let down = st == owned("stopped") || st == owned("failed");
    let wants = match desired {
        Some(d) => *d == owned("running"),
        None => false,
    };
    let pol = match policy {
        Some(p) => *p == owned("always") || *p == owned("unless-stopped"),
        None => false,
    };
    down && wants && pol
}

/// What the life of a container reads and changes of its saved state.
pub struct ContainerRecord {
    pub id: String,
    pub status: String,
    pub pid: i32,
    pub desired_status: Option<String>,
    pub exit_code: Option<i32>,
    pub ip: Option<String>,
    pub ports: Option<Vec<String>>,
}

/// The address and published ports that a container's network cleanup uses:
/// none stand for the empty address and no ports.
pub open spec fn net_ip(r: ContainerRecord) -> Seq<char> {
    match r.ip {
        Some(ip) => ip@,
        None => Seq::empty(),
    }
}

/// The published ports of a container, none standing for an empty list.
pub open spec fn net_ports(r: ContainerRecord) -> Seq<Seq<char>> {
    match r.ports {
        Some(p) => views(p@),
        None => Seq::empty(),
    }
}

/// What stopping a running container does outside its saved state: the
/// runtime commands that signal it (terminate first, kill if that fails), the
/// NAT rules that are deleted and the virtual interface that is removed.
pub struct StopPlan {
    pub terminate: Vec<String>,
    pub kill: Vec<String>,
    pub rules: Vec<Vec<String>>,
    pub veth: String,
}

/// Three texts.
fn three(a: &str, b: &str, c: &str) -> (v: Vec<String>)
    ensures
        views(v@) == seq![a@, b@, c@],
{
    let mut v: Vec<String> = Vec::new();
    v.push(owned(a));
    v.push(owned(b));
    v.push(owned(c));
    assert(views(v@) =~= seq![a@, b@, c@]);
    v
}

/// A copy of an optional list of texts, none standing for an empty list.
fn ports_or_empty(p: &Option<Vec<String>>) -> (r: Vec<String>)
    ensures
        views(r@) == match p {
            Some(v) => views(v@),
            None => Seq::<Seq<char>>::empty(),
        },
{
    match p {
        Some(v) => {
            let mut r: Vec<String> = Vec::new();
            let mut i: usize = 0;
            while i < v.len()
                invariant
                    i <= v.len(),
                    views(r@) == views(v@).take(i as int),
                decreases v.len() - i,
            {
                let ghost prev = views(r@);
                r.push(v[i].clone());
                assert(views(r@) =~= prev.push(v@[i as int]@));
                assert(views(v@).take(i + 1) =~= views(v@).take(i as int).push(v@[i as int]@));
                i += 1;
            }
            assert(views(v@).take(v.len() as int) =~= views(v@));
            r
        },
        None => {
            let r: Vec<String> = Vec::new();
            assert(views(r@) =~= Seq::<Seq<char>>::empty());
            r
        },
    }
}

/// Stops a container in its saved state: a container that is not running is
/// left alone (`None`); a running one becomes stopped, meant to stay stopped,
/// without a process, and the plan of what is done outside is returned.
pub fn container_stop(rec: &mut ContainerRecord) -> (r: Option<StopPlan>)
    ensures
        old(rec).status@ != "running"@ ==> r is None && *final(rec) == *old(rec),
        old(rec).status@ == "running"@ ==> r is Some,
        r matches Some(plan) ==> views(plan.terminate@) == seq!["kill"@, old(rec).id@, "SIGTERM"@]
            && views(plan.kill@) == seq!["kill"@, old(rec).id@, "SIGKILL"@] && arg_views(plan.rules@)
            == port_forward_rules("-D"@, net_ports(*old(rec)), net_ip(*old(rec))) && plan.veth@
            == crate::network::veth_names_of(crate::network::default_hash(old(rec).id@)).0,
        old(rec).status@ == "running"@ ==> final(rec).status@ == "stopped"@ && crate::network::opt_text(
            final(rec).desired_status,
        ) == Some("stopped"@) && final(rec).pid == 0 && final(rec).id == old(rec).id && final(rec).exit_code
            == old(rec).exit_code && final(rec).ip == old(rec).ip && final(rec).ports == old(rec).ports,
{
    let running = owned("running");
    if rec.status != running {
        return None;
    }
    let ip = match &rec.ip {
        Some(a) => a.clone(),
        None => String::new(),
    };
    let ports = ports_or_empty(&rec.ports);
    let (rules, veth) = clean_container_network(rec.id.as_str(), ip.as_str(), &ports);
    let plan = StopPlan {
        terminate: three("kill", rec.id.as_str(), "SIGTERM"),
        kill: three("kill", rec.id.as_str(), "SIGKILL"),
        rules,
        veth,
    };
    rec.status = owned("stopped");
    rec.desired_status = Some(owned("stopped"));
    rec.pid = 0;
    Some(plan)
}

/// Whether a container may be started: not when it already runs.
pub fn container_start_check(rec: &ContainerRecord) -> (r: Result<(), String>)
    ensures
        rec.status@ == "running"@ ==> (r matches Err(m) && m@ == "Container "@ + rec.id@ + " is already running"@),
        rec.status@ != "running"@ ==> r is Ok,
{
    if rec.status == owned("running") {
        Err(concat3("Container ", rec.id.as_str(), " is already running"))
    } else {
        Ok(())
    }
}

/// The saved state of a container just created: `created`, meant to stay
/// stopped, without a process, exit code or address, publishing `ports`.
pub fn record_new(id: &str, ports: Vec<String>) -> (r: ContainerRecord)
    ensures
        r.id@ == id@,
        r.status@ == "created"@,
        r.pid == 0,
        crate::network::opt_text(r.desired_status) == Some("stopped"@),
        r.exit_code is None,
        r.ip is None,
        r.ports == Some(ports),
{
    ContainerRecord {
        id: owned(id),
        status: owned("created"),
        pid: 0,
        desired_status: Some(owned("stopped")),
        exit_code: None,
        ip: None,
        ports: Some(ports),
    }
}

/// Records that starting a container failed.
pub fn record_start_failure(rec: &mut ContainerRecord)
    ensures
        final(rec).status@ == "failed"@,
        final(rec).id == old(rec).id && final(rec).pid == old(rec).pid && final(rec).desired_status == old(
            rec,
        ).desired_status && final(rec).exit_code == old(rec).exit_code && final(rec).ip == old(rec).ip
            && final(rec).ports == old(rec).ports,
{
    rec.status = owned("failed");
}

/// Records that a container was created with process `pid` and, when its
/// network was set up, the address `ip`.
pub fn record_created(rec: &mut ContainerRecord, pid: i32, ip: Option<String>)
    ensures
        final(rec).pid == (if pid > 0 {
            pid
        } else {
            old(rec).pid
        }),
        final(rec).ip == match ip {
            Some(a) => Some(a),
            None => old(rec).ip,
        },
        final(rec).id == old(rec).id && final(rec).status == old(rec).status && final(rec).desired_status == old(
            rec,
        ).desired_status && final(rec).exit_code == old(rec).exit_code && final(rec).ports == old(rec).ports,
{
    if pid > 0 {
        rec.pid = pid;
    }
    match ip {
        Some(a) => {
            rec.ip = Some(a);
        },
        None => {},
    }
}

/// Records that a container started: running, meant to run, exit code 0.
pub fn record_started(rec: &mut ContainerRecord)
    ensures
        final(rec).status@ == "running"@,
        crate::network::opt_text(final(rec).desired_status) == Some("running"@),
        final(rec).exit_code == Some(0i32),
        final(rec).id == old(rec).id && final(rec).pid == old(rec).pid && final(rec).ip == old(rec).ip
            && final(rec).ports == old(rec).ports,
{
    rec.status = owned("running");
    rec.desired_status = Some(owned("running"));
    rec.exit_code = Some(0);
}

/// The process id in the runtime's answer, cut to 32 bits; 0 when it gave none.
pub fn runtime_pid(pid: Option<i64>) -> (r: i32)
    ensures
        r == match pid {
            Some(p) => p as i32,
            None => 0i32,
        },
{
    match pid {
        Some(p) => p as i32,
        None => 0,
    }
}

/// The arguments of the runtime's `update` of container `id`: the memory limit
/// when positive, the CPU period and quota when a CPU limit is set, then the id.
pub fn update_args(id: &str, memory_limit: i64, cpu_quota: Option<i64>) -> (r: Vec<String>)
    ensures
        views(r@) == seq!["update"@] + (if memory_limit > 0 {
            seq!["--memory"@, crate::num::decimal(memory_limit as int)]
        } else {
            Seq::empty()
        }) + match cpu_quota {
            Some(q) => seq!["--cpu-period"@, "100000"@, "--cpu-quota"@, crate::num::decimal(q as int)],
            None => Seq::empty(),
        } + seq![id@],
{
    let mut r: Vec<String> = Vec::new();
    r.push(owned("update"));
    let ghost a = views(r@);
    if memory_limit > 0 {
        r.push(owned("--memory"));
        r.push(crate::num::int_to_string(memory_limit));
    }
    let ghost b = views(r@);
    assert(b =~= a + (if memory_limit > 0 {
        seq!["--memory"@, crate::num::decimal(memory_limit as int)]
    } else {
        Seq::<Seq<char>>::empty()
    }));
    match cpu_quota {
        Some(q) => {
            r.push(owned("--cpu-period"));
            r.push(owned("100000"));
            r.push(owned("--cpu-quota"));
            r.push(crate::num::int_to_string(q));
        },
        None => {},
    }
    let ghost c = views(r@);
    assert(c =~= b + match cpu_quota {
        Some(q) => seq!["--cpu-period"@, "100000"@, "--cpu-quota"@, crate::num::decimal(q as int)],
        None => Seq::<Seq<char>>::empty(),
    });
    r.push(owned(id));
    assert(views(r@) =~= c + seq![id@]);
    assert(a =~= seq!["update"@]);
    r
}

/// The runtime commands that removing container `id` runs first: kill it,
/// then delete it by force.
pub fn delete_commands(id: &str) -> (r: (Vec<String>, Vec<String>))
    ensures
        views(r.0@) == seq!["kill"@, id@, "SIGKILL"@],
        views(r.1@) == seq!["delete"@, "--force"@, id@],
{
    (three("kill", id, "SIGKILL"), three("delete", "--force", id))
}

/// The error when a container's directory cannot be removed.
pub fn delete_dir_error(dir: &str, err: &str) -> (r: String)
    ensures
        r@ == "Failed to delete container directory '"@ + dir@ + "': "@ + err@,
{
    let a = concat3("Failed to delete container directory '", dir, "': ");
    concat(a.as_str(), err)
}

} // verus!
