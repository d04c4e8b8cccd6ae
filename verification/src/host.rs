//! What the panel reads from and writes for its host: uptime, the init system
//! and its service files, the distribution's name, port owners, log tails and
//! the image tags worth offering.
use vstd::prelude::*;
use crate::memory::{lowercase, to_lowercase};
use crate::num::{decimal, parse_i64, parse_i64_exec, uint_to_string};
use crate::text::{
    chars_of, concat, concat3, contains, contains_exec, lines, lines_exec, owned, split, split_exec, starts_with,
    starts_with_exec, string_of_range, trim, trim_char, trim_char_exec, trim_exec, trim_start_matches,
    trim_start_matches_exec, views,
};
use crate::network::push_text;
use crate::ports::arg_views;

verus! {

/// An uptime as the panel shows it: days, hours and minutes when it is a day or
/// more, hours and minutes when it is an hour or more, else minutes.
pub open spec fn uptime_text(seconds: nat) -> Seq<char> {
    let days = seconds / 86400;
    let hours = (seconds % 86400) / 3600;
    let minutes = (seconds % 3600) / 60;
    if days > 0 {
        decimal(days as int) + " days, "@ + decimal(hours as int) + " hours, "@ + decimal(minutes as int) + " mins"@
    } else if hours > 0 {
        decimal(hours as int) + " hours, "@ + decimal(minutes as int) + " mins"@
    } else {
        decimal(minutes as int) + " mins"@
    }
}

/// Formats an uptime in seconds.
pub fn format_uptime(seconds: u64) -> (r: String)
    ensures
        r@ == uptime_text(seconds as nat),
{
    let days = seconds / 86400;
    let hours = (seconds % 86400) / 3600;
    let minutes = (seconds % 3600) / 60;
    let d = uint_to_string(days);
    let h = uint_to_string(hours);
    let m = uint_to_string(minutes);
    if days > 0 {
        let a = concat3(d.as_str(), " days, ", h.as_str());
        let b = concat3(a.as_str(), " hours, ", m.as_str());
        concat(b.as_str(), " mins")
    } else if hours > 0 {
        let a = concat3(h.as_str(), " hours, ", m.as_str());
        concat(a.as_str(), " mins")
    } else {
        concat(m.as_str(), " mins")
    }
}

/// The init system, from what exists on the host: `/run/systemd/system` means
/// systemd; `/run/openrc` or `/sbin/openrc-run` OpenRC; `/etc/init.d` SysV init.
pub fn get_init_system(systemd_run_dir: bool, openrc_run_dir: bool, openrc_run_bin: bool, init_d: bool) -> (r: String)
    ensures
        r@ == (if systemd_run_dir {
            "systemd"@
        } else if openrc_run_dir || openrc_run_bin {
            "openrc"@
        } else if init_d {
            "sysvinit"@
        } else {
            "unknown"@
        }),
{
    if systemd_run_dir {
        owned("systemd")
    } else if openrc_run_dir || openrc_run_bin {
        owned("openrc")
    } else if init_d {
        owned("sysvinit")
    } else {
        owned("unknown")
    }
}

/// The name of the distribution in `/etc/os-release` text, from the first
/// line that starts with `PRETTY_NAME=` or `NAME=`.
pub open spec fn distro_from(ls: Seq<Seq<char>>) -> Seq<char>
    decreases ls.len(),
{
    if ls.len() == 0 {
        "Linux"@
    } else if starts_with(ls[0], "PRETTY_NAME="@) {
        trim_char(trim_start_matches(ls[0], "PRETTY_NAME="@), '"')
    } else if starts_with(ls[0], "NAME="@) {
        trim_char(trim_start_matches(ls[0], "NAME="@), '"')
    } else {
        distro_from(ls.drop_first())
    }
}

/// The distribution's name from `/etc/os-release` (`Linux` when it names none
/// or cannot be read; pass empty text then).
pub fn get_distro(os_release: &str) -> (r: String)
    ensures
        r@ == distro_from(lines(os_release@)),
{
    let ls = lines_exec(os_release);
    let mut i: usize = 0;
    assert(views(ls@).subrange(0, ls@.len() as int) =~= views(ls@));
    while i < ls.len()
        invariant
            i <= ls.len(),
            distro_from(lines(os_release@)) == distro_from(views(ls@).subrange(i as int, ls@.len() as int)),
            views(ls@) == lines(os_release@),
        decreases ls.len() - i,
    {
        let ghost rest = views(ls@).subrange(i as int, ls@.len() as int);
        assert(rest[0] == ls@[i as int]@);
        assert(rest.drop_first() =~= views(ls@).subrange(i + 1, ls@.len() as int));
        let line = ls[i].as_str();
        if starts_with_exec(line, "PRETTY_NAME=") {
            let t = trim_start_matches_exec(line, "PRETTY_NAME=");
            return trim_char_exec(t.as_str(), '"');
        } else if starts_with_exec(line, "NAME=") {
            let t = trim_start_matches_exec(line, "NAME=");
            return trim_char_exec(t.as_str(), '"');
        }
        i += 1;
    }
    owned("Linux")
}

/// The panel's service status: `not_installed` without its service file, else
/// `active` when the probe says so, else `inactive`. Under systemd the probe
/// is `systemctl is-active` printing `active` (trimmed); elsewhere the init
/// script's `status` succeeding.
pub fn get_service_status(installed: bool, probe_active: bool) -> (r: String)
    ensures
        r@ == (if !installed {
            "not_installed"@
        } else if probe_active {
            "active"@
        } else {
            "inactive"@
        }),
{
    if !installed {
        owned("not_installed")
    } else if probe_active {
        owned("active")
    } else {
        owned("inactive")
    }
}

/// Whether `systemctl is-active` printed `active`.
pub fn is_active_output(stdout: &str) -> (b: bool)
    ensures
        b == (trim(stdout@) == "active"@),
{
    trim_exec(stdout) == owned("active")
}

/// The capability lines of a systemd unit for a user other than root.
pub open spec fn cap_lines(app_user: Seq<char>) -> Seq<char> {
    if app_user != "root"@ {
        "AmbientCapabilities=CAP_NET_BIND_SERVICE\nCapabilityBoundingSet=CAP_NET_BIND_SERVICE\n"@
    } else {
        Seq::empty()
    }
}

/// The systemd unit that runs the panel at `exe` from `working_dir` as `app_user`.
pub open spec fn systemd_unit(app_user: Seq<char>, working_dir: Seq<char>, exe: Seq<char>) -> Seq<char> {
    "[Unit]\nDescription=ZenoPanel Control Panel Service\nAfter=network.target\n\n[Service]\nType=simple\nUser="@
        + app_user + "\n"@ + cap_lines(app_user) + "WorkingDirectory="@ + working_dir + "\nExecStart="@ + exe
        + "\nRestart=always\nRestartSec=5\nEnvironment=PATH=/usr/bin:/usr/local/bin\n\n[Install]\nWantedBy=multi-user.target\n"@
}

/// The head of the SysV init script that runs the panel.
pub open spec fn sysv_head() -> Seq<char> {
    "#!/bin/sh\n### BEGIN INIT INFO\n# Provides:          zenopanel\n# Required-Start:    $local_fs $network\n# Required-Stop:     $local_fs $network\n# Default-Start:     2 3 4 5\n# Default-Stop:      0 1 6\n# Short-Description: ZenoPanel Service\n### END INIT INFO\n\nDIR=\""@
}

/// The body of the SysV init script that runs the panel.
pub open spec fn sysv_body() -> Seq<char> {
    "\"\nDAEMON_NAME=\"zenopanel\"\n\ncase \"$1\" in\nstart)\necho \"Starting $DAEMON_NAME...\"\ncd \"$DIR\" && \"$DAEMON\" > /var/log/zenopanel.log 2>&1 &\n;;\nstop)\necho \"Stopping $DAEMON_NAME...\"\npkill -f \"$DAEMON\"\n;;\nrestart)\n$0 stop\nsleep 1\n$0 start\n;;\nstatus)\nif pgrep -f \"$DAEMON\" > /dev/null; then\necho \"$DAEMON_NAME is running.\"\nexit 0\nelse\necho \"$DAEMON_NAME is not running.\"\nexit 3\nfi\n;;\n*)\necho \"Usage: $0 {start|stop|restart|status}\"\nexit 1\n;;\nesac\nexit 0\n"@
}

/// The SysV init script that runs the panel at `exe` from `working_dir`.
pub open spec fn sysv_script(working_dir: Seq<char>, exe: Seq<char>) -> Seq<char> {
    sysv_head() + working_dir + "\"\nDAEMON=\""@ + exe + sysv_body()
}

/// The service file that installs the panel under the init system `init_sys`:
/// a systemd unit, or else a SysV init script.
pub fn generate_service_content(init_sys: &str, exe: &str, working_dir: &str, app_user: &str) -> (r: String)
    ensures
        r@ == (if init_sys@ == "systemd"@ {
            systemd_unit(app_user@, working_dir@, exe@)
        } else {
            sysv_script(working_dir@, exe@)
        }),
{
    if owned(init_sys) == owned("systemd") {
        let caps = if owned(app_user) != owned("root") {
            owned("AmbientCapabilities=CAP_NET_BIND_SERVICE\nCapabilityBoundingSet=CAP_NET_BIND_SERVICE\n")
        } else {
            String::new()
        };
        let a = concat3(
            "[Unit]\nDescription=ZenoPanel Control Panel Service\nAfter=network.target\n\n[Service]\nType=simple\nUser=",
            app_user,
            "\n",
        );
        let b = concat3(a.as_str(), caps.as_str(), "WorkingDirectory=");
        let c = concat3(b.as_str(), working_dir, "\nExecStart=");
        let d = concat3(
            c.as_str(),
            exe,
            "\nRestart=always\nRestartSec=5\nEnvironment=PATH=/usr/bin:/usr/local/bin\n\n[Install]\nWantedBy=multi-user.target\n",
        );
        assert(d@ =~= systemd_unit(app_user@, working_dir@, exe@));
        d
    } else {
        let a = concat(
            "#!/bin/sh\n### BEGIN INIT INFO\n# Provides:          zenopanel\n# Required-Start:    $local_fs $network\n# Required-Stop:     $local_fs $network\n# Default-Start:     2 3 4 5\n# Default-Stop:      0 1 6\n# Short-Description: ZenoPanel Service\n### END INIT INFO\n\nDIR=\"",
            working_dir,
        );
        let b = concat3(a.as_str(), "\"\nDAEMON=\"", exe);
        let c = concat(
            b.as_str(),
            "\"\nDAEMON_NAME=\"zenopanel\"\n\ncase \"$1\" in\nstart)\necho \"Starting $DAEMON_NAME...\"\ncd \"$DIR\" && \"$DAEMON\" > /var/log/zenopanel.log 2>&1 &\n;;\nstop)\necho \"Stopping $DAEMON_NAME...\"\npkill -f \"$DAEMON\"\n;;\nrestart)\n$0 stop\nsleep 1\n$0 start\n;;\nstatus)\nif pgrep -f \"$DAEMON\" > /dev/null; then\necho \"$DAEMON_NAME is running.\"\nexit 0\nelse\necho \"$DAEMON_NAME is not running.\"\nexit 3\nfi\n;;\n*)\necho \"Usage: $0 {start|stop|restart|status}\"\nexit 1\n;;\nesac\nexit 0\n",
        );
        assert(c@ =~= sysv_script(working_dir@, exe@));
        c
    }
}

/// The version that a manifest text declares: the part between the first two
/// double quotes of its first line that starts, once trimmed, with `version =`.
pub open spec fn declared_version(ls: Seq<Seq<char>>) -> Option<Seq<char>>
    decreases ls.len(),
{
    if ls.len() == 0 {
        None
    } else if starts_with(trim(ls[0]), "version ="@) {
        let parts = split(ls[0], "\""@);
        if parts.len() > 1 {
            Some(parts[1])
        } else {
            None
        }
    } else {
        declared_version(ls.drop_first())
    }
}

/// The version that a published manifest declares.
pub fn latest_version_from(manifest: &str) -> (r: Option<String>)
    ensures
        crate::image::opt_view(r) == declared_version(lines(manifest@)),
{
    proof {
        reveal_strlit("\"");
    }
    let ls = lines_exec(manifest);
    let mut i: usize = 0;
    assert(views(ls@).subrange(0, ls@.len() as int) =~= views(ls@));
    while i < ls.len()
        invariant
            i <= ls.len(),
            declared_version(lines(manifest@)) == declared_version(views(ls@).subrange(i as int, ls@.len() as int)),
            views(ls@) == lines(manifest@),
            "\""@.len() == 1,
        decreases ls.len() - i,
    {
        let ghost rest = views(ls@).subrange(i as int, ls@.len() as int);
        assert(rest[0] == ls@[i as int]@);
        assert(rest.drop_first() =~= views(ls@).subrange(i + 1, ls@.len() as int));
        let t = trim_exec(ls[i].as_str());
        if starts_with_exec(t.as_str(), "version =") {
            let parts = split_exec(ls[i].as_str(), "\"");
            if parts.len() > 1 {
                assert(views(parts@)[1] == parts@[1]@);
                return Some(parts[1].clone());
            }
            return None;
        }
        i += 1;
    }
    None
}

/// What `lsof -F pc` printed about a port: whether a process listens (a `p`
/// line with a number), its id and its command (the last of each).
pub open spec fn lsof_scan(ls: Seq<Seq<char>>) -> (bool, Option<int>, Option<Seq<char>>)
    decreases ls.len(),
{
    if ls.len() == 0 {
        (false, None, None)
    } else {
        let (in_use, pid, name) = lsof_scan(ls.drop_last());
        let l = ls.last();
        if starts_with(l, "p"@) {
            match parse_i64(l.drop_first()) {
                Ok(p) => (true, Some(p), name),
                Err(_) => (in_use, pid, name),
            }
        } else if starts_with(l, "c"@) {
            (in_use, pid, Some(l.drop_first()))
        } else {
            (in_use, pid, name)
        }
    }
}

/// Reads what `lsof -F pc` printed about a port.
pub fn parse_lsof_output(out: &str) -> (r: (bool, Option<i64>, Option<String>))
    ensures
        (r.0, match r.1 {
            Some(p) => Some(p as int),
            None => None,
        }, crate::image::opt_view(r.2)) == lsof_scan(lines(out@)),
{
    proof {
        reveal_strlit("p");
        reveal_strlit("c");
    }
    let ls = lines_exec(out);
    let mut in_use = false;
    let mut pid: Option<i64> = None;
    let mut name: Option<String> = None;
    let mut i: usize = 0;
    while i < ls.len()
        invariant
            i <= ls.len(),
            views(ls@) == lines(out@),
            (in_use, match pid {
                Some(p) => Some(p as int),
                None => None,
            }, crate::image::opt_view(name)) == lsof_scan(views(ls@).take(i as int)),
            "p"@.len() == 1,
            "c"@.len() == 1,
        decreases ls.len() - i,
    {
        assert(views(ls@).take(i + 1).drop_last() =~= views(ls@).take(i as int));
        assert(views(ls@).take(i + 1).last() == ls@[i as int]@);
        let line = ls[i].as_str();
        let cs = chars_of(line);
        if starts_with_exec(line, "p") {
            let rest = string_of_range(&cs, 1, cs.len());
            assert(rest@ =~= line@.drop_first());
            match parse_i64_exec(rest.as_str()) {
                Ok(p) => {
                    pid = Some(p);
                    in_use = true;
                },
                Err(_) => {},
            }
        } else if starts_with_exec(line, "c") {
            let rest = string_of_range(&cs, 1, cs.len());
            assert(rest@ =~= line@.drop_first());
            name = Some(rest);
        }
        i += 1;
    }
    assert(views(ls@).take(ls.len() as int) =~= views(ls@));
    (in_use, pid, name)
}

/// The last `n` lines of a log, all of them when it has fewer.
pub fn tail_lines(content: &str, n: usize) -> (r: Vec<String>)
    ensures
        views(r@) == (if lines(content@).len() > n {
            lines(content@).subrange(lines(content@).len() - n, lines(content@).len() as int)
        } else {
            lines(content@)
        }),
{
    let ls = lines_exec(content);
    let start = if ls.len() > n {
        ls.len() - n
    } else {
        0
    };
    let mut r: Vec<String> = Vec::new();
    let mut i: usize = start;
    while i < ls.len()
        invariant
            start <= i <= ls.len(),
            views(r@) == views(ls@).subrange(start as int, i as int),
        decreases ls.len() - i,
    {
        let ghost prev = views(r@);
        r.push(ls[i].clone());
        assert(views(r@) =~= prev.push(ls@[i as int]@));
        assert(views(ls@).subrange(start as int, i + 1) =~= views(ls@).subrange(start as int, i as int).push(
            ls@[i as int]@,
        ));
        i += 1;
    }
    assert(views(ls@).subrange(0, ls.len() as int) =~= views(ls@));
    r
}

/// Whether a character is an ASCII hexadecimal digit.
pub open spec fn is_hex_digit(c: char) -> bool {
    ('0' <= c <= '9') || ('a' <= c <= 'f') || ('A' <= c <= 'F')
}

/// Whether an image tag is worth offering: not a long hexadecimal digest, and
/// (in lower case) neither a pre-release (`beta`, `alpha`, `rc`, `dev`) nor a
/// moving name (`latest`, `master`, `main`).
pub open spec fn tag_offered(tag: Seq<char>) -> bool {
    let l = lowercase(tag);
    !(tag.len() > 20 && forall|i: int| 0 <= i < tag.len() ==> is_hex_digit(#[trigger] tag[i])) && !contains(l, "beta"@)
        && !contains(l, "alpha"@) && !contains(l, "rc"@) && !contains(l, "dev"@) && l != "latest"@ && l != "master"@
        && l != "main"@
}

/// Whether an image tag is worth offering.
pub fn keep_tag(tag: &str) -> (b: bool)
    ensures
        b == tag_offered(tag@),
{
    let cs = chars_of(tag);
    let mut all_hex = true;
    let mut i: usize = 0;
    while i < cs.len()
        invariant
            i <= cs.len(),
            cs@ == tag@,
            all_hex == forall|k: int| 0 <= k < i ==> is_hex_digit(#[trigger] cs@[k]),
        decreases cs.len() - i,
    {
        let c = cs[i];
        let hex = ('0' <= c && c <= '9') || ('a' <= c && c <= 'f') || ('A' <= c && c <= 'F');
        all_hex = all_hex && hex;
        i += 1;
    }
    if cs.len() > 20 && all_hex {
        return false;
    }
    let l = to_lowercase(tag);
    let ls = l.as_str();
    !contains_exec(ls, "beta") && !contains_exec(ls, "alpha") && !contains_exec(ls, "rc") && !contains_exec(ls, "dev")
        && l != owned("latest") && l != owned("master") && l != owned("main")
}

/// The Docker Hub repository of `repo`: as given when it has an owner, else
/// under `library/`.
pub fn full_repo(repo: &str) -> (r: String)
    ensures
        r@ == (if contains(repo@, "/"@) {
            repo@
        } else {
            "library/"@ + repo@
        }),
{
    if contains_exec(repo, "/") {
        owned(repo)
    } else {
        concat("library/", repo)
    }
}

/// The Docker Hub listing of a repository's tags.
pub fn docker_tags_url(full_repo: &str) -> (r: String)
    ensures
        r@ == "https://registry.hub.docker.com/v2/repositories/"@ + full_repo@ + "/tags?page_size=100"@,
{
    concat3("https://registry.hub.docker.com/v2/repositories/", full_repo, "/tags?page_size=100")
}

/// Whether `systemctl` may be asked to do `action` to a service.
pub fn valid_service_action(action: &str) -> (b: bool)
    ensures
        b == (action@ == "start"@ || action@ == "stop"@ || action@ == "restart"@ || action@ == "reload"@
            || action@ == "enable"@ || action@ == "disable"@),
{
    let a = owned(action);
    a == owned("start") || a == owned("stop") || a == owned("restart") || a == owned("reload") || a == owned("enable")
        || a == owned("disable")
}

/// The `lsof` arguments that find the process listening on TCP `port`, or
/// the refusal of a port outside `1..=65535`.
pub fn port_check_args(port: i64) -> (r: Result<Vec<String>, String>)
    ensures
        if port <= 0 || port > 65535 {
            r matches Err(m) && m@ == "system.port_check: invalid port number"@
        } else {
            r matches Ok(a) && views(a@) == seq!["-i"@, ":"@ + decimal(port as int), "-s"@, "tcp:listen"@, "-F"@, "pc"@]
        },
{
    if port <= 0 || port > 65535 {
        return Err(owned("system.port_check: invalid port number"));
    }
    let n = crate::num::int_to_string(port);
    let target = concat(":", n.as_str());
    let r = crate::network::text_args(&["-i", target.as_str(), "-s", "tcp:listen", "-F", "pc"]);
    assert(views(r@) =~= seq!["-i"@, ":"@ + decimal(port as int), "-s"@, "tcp:listen"@, "-F"@, "pc"@]);
    Ok(r)
}

/// The process that `system.kill` signals, or its refusal of a pid that is not
/// positive.
pub fn kill_target(pid: i64) -> (r: Result<usize, String>)
    ensures
        if pid <= 0 {
            r matches Err(m) && m@ == "system.kill: invalid pid"@
        } else {
            r == Ok::<usize, String>(pid as usize)
        },
{
    if pid <= 0 {
        Err(owned("system.kill: invalid pid"))
    } else {
        Ok(pid as usize)
    }
}

/// The message of a `system.service_control` request with an action that
/// `systemctl` is not asked to do.
pub fn invalid_action_message(action: &str) -> (r: String)
    ensures
        r@ == "system.service_control: invalid action '"@ + action@ + "'"@,
{
    concat3("system.service_control: invalid action '", action, "'")
}

/// Whether the panel can be installed as a service under `init`: systemd,
/// OpenRC and SysV init can; an unknown init system cannot.
pub open spec fn supported_init(init: Seq<char>) -> bool {
    init == "systemd"@ || init == "openrc"@ || init == "sysvinit"@
}

/// Where the panel's service file goes under `init`.
pub open spec fn service_file(init: Seq<char>) -> Seq<char> {
    if init == "systemd"@ {
        "/etc/systemd/system/zenopanel.service"@
    } else {
        "/etc/init.d/zenopanel"@
    }
}

/// The commands run once the service file is written: reload, enable and
/// start under systemd; make the script executable, register it and start it
/// otherwise.
pub open spec fn install_steps(init: Seq<char>) -> Seq<Seq<Seq<char>>> {
    if init == "systemd"@ {
        seq![
            seq!["systemctl"@, "daemon-reload"@],
            seq!["systemctl"@, "enable"@, "zenopanel.service"@],
            seq!["systemctl"@, "start"@, "zenopanel.service"@],
        ]
    } else {
        seq![
            seq!["chmod"@, "+x"@, "/etc/init.d/zenopanel"@],
            seq!["update-rc.d"@, "zenopanel"@, "defaults"@],
            seq!["service"@, "zenopanel"@, "start"@],
        ]
    }
}

/// The commands run before the service file is removed: stop and disable
/// under systemd; stop and unregister otherwise.
pub open spec fn uninstall_steps(init: Seq<char>) -> Seq<Seq<Seq<char>>> {
    if init == "systemd"@ {
        seq![seq!["systemctl"@, "stop"@, "zenopanel.service"@], seq!["systemctl"@, "disable"@, "zenopanel.service"@]]
    } else {
        seq![seq!["service"@, "zenopanel"@, "stop"@], seq!["update-rc.d"@, "-f"@, "zenopanel"@, "remove"@]]
    }
}

/// The commands run after the service file is removed: a reload under
/// systemd, nothing otherwise.
pub open spec fn after_uninstall_steps(init: Seq<char>) -> Seq<Seq<Seq<char>>> {
    if init == "systemd"@ {
        seq![seq!["systemctl"@, "daemon-reload"@]]
    } else {
        seq![]
    }
}

/// A command of two words.
fn command2(a: &str, b: &str) -> (r: Vec<String>)
    ensures
        views(r@) == seq![a@, b@],
{
    let mut r: Vec<String> = Vec::new();
    push_text(&mut r, a);
    push_text(&mut r, b);
    assert(views(r@) =~= seq![a@, b@]);
    r
}

/// A command of three words.
fn command3(a: &str, b: &str, c: &str) -> (r: Vec<String>)
    ensures
        views(r@) == seq![a@, b@, c@],
{
    let mut r = command2(a, b);
    push_text(&mut r, c);
    assert(views(r@) =~= seq![a@, b@, c@]);
    r
}

/// A command of four words.
fn command4(a: &str, b: &str, c: &str, d: &str) -> (r: Vec<String>)
    ensures
        views(r@) == seq![a@, b@, c@, d@],
{
    let mut r = command3(a, b, c);
    push_text(&mut r, d);
    assert(views(r@) =~= seq![a@, b@, c@, d@]);
    r
}

/// Whether `init_sys` names systemd.
fn is_systemd(init_sys: &str) -> (b: bool)
    ensures
        b == (init_sys@ == "systemd"@),
{
    owned(init_sys) == owned("systemd")
}

/// How the panel is installed as a service under `init_sys`: the service
/// file's path and the commands run once it is written; none under an init
/// system that cannot take it.
pub fn install_plan(init_sys: &str) -> (r: Option<(String, Vec<Vec<String>>)>)
    ensures
        match r {
            Some((path, cmds)) => supported_init(init_sys@) && path@ == service_file(init_sys@) && arg_views(cmds@)
                == install_steps(init_sys@),
            None => !supported_init(init_sys@),
        },
{
    let supported = is_systemd(init_sys) || owned(init_sys) == owned("openrc") || owned(init_sys) == owned(
        "sysvinit",
    );
    if !supported {
        return None;
    }
    let mut cmds: Vec<Vec<String>> = Vec::new();
    if is_systemd(init_sys) {
        cmds.push(command2("systemctl", "daemon-reload"));
        cmds.push(command3("systemctl", "enable", "zenopanel.service"));
        cmds.push(command3("systemctl", "start", "zenopanel.service"));
        assert(arg_views(cmds@) =~= install_steps(init_sys@));
        Some((owned("/etc/systemd/system/zenopanel.service"), cmds))
    } else {
        cmds.push(command3("chmod", "+x", "/etc/init.d/zenopanel"));
        cmds.push(command3("update-rc.d", "zenopanel", "defaults"));
        cmds.push(command3("service", "zenopanel", "start"));
        assert(arg_views(cmds@) =~= install_steps(init_sys@));
        Some((owned("/etc/init.d/zenopanel"), cmds))
    }
}

/// How the panel's service is removed under `init_sys`: the commands run
/// before the service file is removed, its path, and the commands run after;
/// none under an init system that cannot have it.
pub fn uninstall_plan(init_sys: &str) -> (r: Option<(Vec<Vec<String>>, String, Vec<Vec<String>>)>)
    ensures
        match r {
            Some((before, path, after)) => supported_init(init_sys@) && arg_views(before@) == uninstall_steps(
                init_sys@,
            ) && path@ == service_file(init_sys@) && arg_views(after@) == after_uninstall_steps(init_sys@),
            None => !supported_init(init_sys@),
        },
{
    let supported = is_systemd(init_sys) || owned(init_sys) == owned("openrc") || owned(init_sys) == owned(
        "sysvinit",
    );
    if !supported {
        return None;
    }
    let mut before: Vec<Vec<String>> = Vec::new();
    let mut after: Vec<Vec<String>> = Vec::new();
    if is_systemd(init_sys) {
        before.push(command3("systemctl", "stop", "zenopanel.service"));
        before.push(command3("systemctl", "disable", "zenopanel.service"));
        after.push(command2("systemctl", "daemon-reload"));
        assert(arg_views(before@) =~= uninstall_steps(init_sys@));
        assert(arg_views(after@) =~= after_uninstall_steps(init_sys@));
        Some((before, owned("/etc/systemd/system/zenopanel.service"), after))
    } else {
        before.push(command3("service", "zenopanel", "stop"));
        before.push(command4("update-rc.d", "-f", "zenopanel", "remove"));
        assert(arg_views(before@) =~= uninstall_steps(init_sys@));
        assert(arg_views(after@) =~= after_uninstall_steps(init_sys@));
        Some((before, owned("/etc/init.d/zenopanel"), after))
    }
}

/// The commands the service page shows for installing and for removing the
/// panel's service by hand under `init_sys`.
pub fn service_hints(init_sys: &str) -> (r: (String, String))
    ensures
        r.0@ == (if init_sys@ == "systemd"@ {
            "sudo systemctl daemon-reload && sudo systemctl enable zenopanel && sudo systemctl start zenopanel"@
        } else {
            "sudo chmod +x /etc/init.d/zenopanel && sudo update-rc.d zenopanel defaults && sudo service zenopanel start"@
        }),
        r.1@ == (if init_sys@ == "systemd"@ {
            "sudo systemctl stop zenopanel && sudo systemctl disable zenopanel && sudo rm /etc/systemd/system/zenopanel.service && sudo systemctl daemon-reload"@
        } else {
            "sudo service zenopanel stop && sudo update-rc.d -f zenopanel remove && sudo rm /etc/init.d/zenopanel"@
        }),
{
    if is_systemd(init_sys) {
        (
            owned("sudo systemctl daemon-reload && sudo systemctl enable zenopanel && sudo systemctl start zenopanel"),
            owned(
                "sudo systemctl stop zenopanel && sudo systemctl disable zenopanel && sudo rm /etc/systemd/system/zenopanel.service && sudo systemctl daemon-reload",
            ),
        )
    } else {
        (
            owned(
                "sudo chmod +x /etc/init.d/zenopanel && sudo update-rc.d zenopanel defaults && sudo service zenopanel start",
            ),
            owned("sudo service zenopanel stop && sudo update-rc.d -f zenopanel remove && sudo rm /etc/init.d/zenopanel"),
        )
    }
}

} // verus!
