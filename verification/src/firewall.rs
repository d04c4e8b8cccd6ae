//! The panel's firewall rules: how they are named in iptables, read back from
//! a listing, protected against locking the panel out, and the lockdown set.
use vstd::prelude::*;
use crate::ports::arg_views;
use crate::text::{
    concat, concat3, contains, contains_exec, ends_with, find, find_exec, chars_of, owned, split, split_exec,
    split_whitespace, split_whitespace_exec, string_of_range, trim, trim_exec, views,
};

verus! {

/// The text that `str::to_uppercase` returns for `s`.
pub uninterp spec fn uppercase(s: Seq<char>) -> Seq<char>;

/// `str::to_uppercase`: Unicode upper case of `s`. Its result is a function of
/// the text alone.
#[verifier::external_body]
fn to_uppercase(s: &str) -> (r: String)
    ensures
        r@ == uppercase(s@),
{
    s.to_uppercase()
}

/// A panel rule as a listing shows it.
pub struct FirewallRule {
    pub name: String,
    pub port: String,
    pub protocol: String,
    pub action: String,
}

/// The name after the `ZenoPanel:` marker of a listed rule: trimmed, one
/// closing quote dropped, trimmed again.
pub open spec fn rule_name_of(line: Seq<char>) -> Seq<char> {
    match find(line, "ZenoPanel:"@) {
        Some(i) => {
            let t = trim(line.subrange(i + 10, line.len() as int));
            let u = if ends_with(t, "\""@) || ends_with(t, "'"@) {
                t.drop_last()
            } else {
                t
            };
            trim(u)
        },
        None => "Unknown"@,
    }
}

/// The port a listed rule matches: the word after `--dport `, else `all`.
pub open spec fn rule_port_of(line: Seq<char>) -> Seq<char> {
    match find(line, "--dport "@) {
        Some(i) => {
            let ws = split_whitespace(line.subrange(i + 8, line.len() as int));
            if ws.len() > 0 {
                ws[0]
            } else {
                Seq::empty()
            }
        },
        None => "all"@,
    }
}

/// What a line of `iptables -S INPUT` is as a panel rule: lines without the
/// `ZenoPanel:` marker are none; the protocol is `tcp`, `udp` or `all`, the
/// action `ACCEPT`, `DROP`, `REJECT` or `UNKNOWN`.
pub open spec fn firewall_rule_of(line: Seq<char>) -> Option<(Seq<char>, Seq<char>, Seq<char>, Seq<char>)> {
    if !contains(line, "ZenoPanel:"@) {
        None
    } else {
        Some(
            (
                rule_name_of(line),
                rule_port_of(line),
                if contains(line, "-p tcp"@) {
                    "tcp"@
                } else if contains(line, "-p udp"@) {
                    "udp"@
                } else {
                    "all"@
                },
                if contains(line, "-j ACCEPT"@) {
                    "ACCEPT"@
                } else if contains(line, "-j DROP"@) {
                    "DROP"@
                } else if contains(line, "-j REJECT"@) {
                    "REJECT"@
                } else {
                    "UNKNOWN"@
                },
            ),
        )
    }
}

/// Reads a line of `iptables -S INPUT` as a panel rule.
pub fn parse_firewall_line(line: &str) -> (r: Option<FirewallRule>)
    ensures
        match firewall_rule_of(line@) {
            Some((n, p, pr, a)) => r matches Some(x) && x.name@ == n && x.port@ == p && x.protocol@ == pr
                && x.action@ == a,
            None => r is None,
        },
{
    if !contains_exec(line, "ZenoPanel:") {
        return None;
    }
    let cs = chars_of(line);
    proof {
        reveal_strlit("ZenoPanel:");
        reveal_strlit("--dport ");
    }
    let name = match find_exec(line, "ZenoPanel:") {
        Some(i) => {
            proof {
                crate::text::lemma_find_from_bounds(line@, "ZenoPanel:"@, 0);
            }
            let rest = string_of_range(&cs, i + 10, cs.len());
            let t = trim_exec(rest.as_str());
            let tv = chars_of(t.as_str());
            let u = if tv.len() > 0 && (tv[tv.len() - 1] == '"' || tv[tv.len() - 1] == '\'') {
                string_of_range(&tv, 0, tv.len() - 1)
            } else {
                t
            };
            proof {
                reveal_strlit("\"");
                reveal_strlit("'");
                if tv@.len() > 0 {
                    assert(tv@.subrange(tv@.len() - 1, tv@.len() as int) =~= seq![tv@.last()]);
                }
            }
            proof {
                assert("\""@ =~= seq!['"']);
                assert("'"@ =~= seq!['\'']);
                if t@.len() > 0 {
                    let sub = t@.subrange(t@.len() - 1, t@.len() as int);
                    assert(sub =~= seq![t@.last()]);
                    if t@.last() == '"' {
                        assert(sub =~= "\""@);
                    } else {
                        assert(sub[0] != "\""@[0]);
                    }
                    if t@.last() == '\'' {
                        assert(sub =~= "'"@);
                    } else {
                        assert(sub[0] != "'"@[0]);
                    }
                }
            }
            assert(ends_with(t@, "\""@) == (t@.len() > 0 && t@.last() == '"'));
            assert(ends_with(t@, "'"@) == (t@.len() > 0 && t@.last() == '\''));
            assert(u@ == (if ends_with(t@, "\""@) || ends_with(t@, "'"@) {
                t@.drop_last()
            } else {
                t@
            }));
            trim_exec(u.as_str())
        },
        None => owned("Unknown"),
    };
    let port = match find_exec(line, "--dport ") {
        Some(i) => {
            proof {
                crate::text::lemma_find_from_bounds(line@, "--dport "@, 0);
            }
            let rest = string_of_range(&cs, i + 8, cs.len());
            let ws = split_whitespace_exec(rest.as_str());
            if ws.len() > 0 {
                assert(views(ws@)[0] == ws@[0]@);
                ws[0].clone()
            } else {
                String::new()
            }
        },
        None => owned("all"),
    };
    let protocol = if contains_exec(line, "-p tcp") {
        owned("tcp")
    } else if contains_exec(line, "-p udp") {
        owned("udp")
    } else {
        owned("all")
    };
    let action = if contains_exec(line, "-j ACCEPT") {
        owned("ACCEPT")
    } else if contains_exec(line, "-j DROP") {
        owned("DROP")
    } else if contains_exec(line, "-j REJECT") {
        owned("REJECT")
    } else {
        owned("UNKNOWN")
    };
    Some(FirewallRule { name, port, protocol, action })
}

/// The ports that blocking would lock the panel out through: SSH and the
/// panel's own ports.
pub open spec fn protected_port(port: Seq<char>) -> bool {
    port == "22"@ || port == "3000"@ || port == "8443"@ || port == "3001"@ || port == "3002"@
}

/// Whether adding a rule is refused: it drops or rejects (in any case) traffic
/// to a protected port.
pub open spec fn locks_out(action: Seq<char>, port: Seq<char>) -> bool {
    (uppercase(action) == "DROP"@ || uppercase(action) == "REJECT"@) && protected_port(port)
}

/// The refusal of a rule that would lock the panel out.
pub open spec fn lockout_message() -> Seq<char> {
    "Lockout Protection: Memblokir port SSH (22) atau port manajemen ZenoPanel tidak diijinkan."@
}

/// The iptables arguments of a panel rule with operation `op`: on `INPUT`,
/// protocol, port, the action upper-cased, and the comment `ZenoPanel: <name>`.
pub open spec fn firewall_rule_args_of(op: Seq<char>, protocol: Seq<char>, port: Seq<char>, action: Seq<char>, name: Seq<char>) -> Seq<Seq<char>> {
    seq![
        op,
        "INPUT"@,
        "-p"@,
        protocol,
        "--dport"@,
        port,
        "-j"@,
        uppercase(action),
        "-m"@,
        "comment"@,
        "--comment"@,
        "ZenoPanel: "@ + name,
    ]
}

/// The iptables arguments of a panel rule.
pub fn firewall_rule_args(op: &str, protocol: &str, port: &str, action: &str, name: &str) -> (r: Vec<String>)
    ensures
        views(r@) == firewall_rule_args_of(op@, protocol@, port@, action@, name@),
{
    let mut r: Vec<String> = Vec::new();
    r.push(owned(op));
    r.push(owned("INPUT"));
    r.push(owned("-p"));
    r.push(owned(protocol));
    r.push(owned("--dport"));
    r.push(owned(port));
    r.push(owned("-j"));
    r.push(to_uppercase(action));
    r.push(owned("-m"));
    r.push(owned("comment"));
    r.push(owned("--comment"));
    r.push(concat("ZenoPanel: ", name));
    assert(views(r@) =~= firewall_rule_args_of(op@, protocol@, port@, action@, name@));
    r
}

/// What adding a panel rule does: refused when it would lock the panel out,
/// else the arguments that check for it and that add it.
pub fn firewall_rule_add(name: &str, port: &str, protocol: &str, action: &str) -> (r: Result<(Vec<String>, Vec<String>), String>)
    ensures
        locks_out(action@, port@) ==> (r matches Err(m) && m@ == lockout_message()),
        !locks_out(action@, port@) ==> (r matches Ok((c, a)) && views(c@) == firewall_rule_args_of(
            "-C"@,
            protocol@,
            port@,
            action@,
            name@,
        ) && views(a@) == firewall_rule_args_of("-A"@, protocol@, port@, action@, name@)),
{
    let up = to_uppercase(action);
    let p = owned(port);
    let blocking = up == owned("DROP") || up == owned("REJECT");
    let protected = p == owned("22") || p == owned("3000") || p == owned("8443") || p == owned("3001") || p == owned(
        "3002",
    );
    if blocking && protected {
        return Err(
            owned("Lockout Protection: Memblokir port SSH (22) atau port manajemen ZenoPanel tidak diijinkan."),
        );
    }
    Ok((firewall_rule_args("-C", protocol, port, action, name), firewall_rule_args("-A", protocol, port, action, name)))
}

/// The ports of a lockdown setting: the comma-separated entries, trimmed,
/// without empty ones.
pub open spec fn lockdown_ports_of(s: Seq<char>) -> Seq<Seq<char>> {
    split(s, ","@).map_values(|p: Seq<char>| trim(p)).filter(|p: Seq<char>| p.len() > 0)
}

/// The ports of a lockdown setting.
pub fn lockdown_ports(s: &str) -> (r: Vec<String>)
    ensures
        views(r@) == lockdown_ports_of(s@),
{
    proof {
        reveal_strlit(",");
    }
    let parts = split_exec(s, ",");
    let ghost pv = views(parts@);
    let mut r: Vec<String> = Vec::new();
    let mut i: usize = 0;
    while i < parts.len()
        invariant
            i <= parts.len(),
            pv == views(parts@),
            views(r@) == pv.take(i as int).map_values(|p: Seq<char>| trim(p)).filter(|p: Seq<char>| p.len() > 0),
        decreases parts.len() - i,
    {
        let t = trim_exec(parts[i].as_str());
        let ghost prev = views(r@);
        assert(pv.take(i + 1).map_values(|p: Seq<char>| trim(p)) =~= pv.take(i as int).map_values(|p: Seq<char>| trim(p)).push(t@));
        proof {
            pv.take(i as int).map_values(|p: Seq<char>| trim(p)).lemma_filter_push(t@, |p: Seq<char>| p.len() > 0);
        }
        if !t.as_str().is_empty() {
            r.push(t);
            assert(views(r@) =~= prev.push(t@));
        }
        i += 1;
    }
    assert(pv.take(parts.len() as int) =~= pv);
    r
}

/// The comment name of the lockdown rule that allows `port`.
pub open spec fn lockdown_rule_name(port: Seq<char>) -> Seq<char> {
    if port == "22"@ {
        "Allow SSH (Port 22)"@
    } else if port == "80"@ {
        "Allow HTTP (Port 80)"@
    } else if port == "443"@ {
        "Allow HTTPS (Port 443)"@
    } else if port == "3002"@ {
        "Allow ZenoPanel (Port 3002)"@
    } else {
        "Allow Port "@ + port
    }
}

/// The lockdown rules with operation `op`: loopback, established and related
/// traffic, then each allowed port over TCP.
pub open spec fn lockdown_rules(op: Seq<char>, ports: Seq<Seq<char>>) -> Seq<Seq<Seq<char>>> {
    seq![
        seq![op, "INPUT"@, "-i"@, "lo"@, "-j"@, "ACCEPT"@, "-m"@, "comment"@, "--comment"@, "ZenoPanel: Allow Loopback"@],
        seq![
            op,
            "INPUT"@,
            "-m"@,
            "conntrack"@,
            "--ctstate"@,
            "ESTABLISHED,RELATED"@,
            "-j"@,
            "ACCEPT"@,
            "-m"@,
            "comment"@,
            "--comment"@,
            "ZenoPanel: Allow Established/Related"@,
        ],
    ] + ports.map_values(
        |p: Seq<char>|
            seq![
                op,
                "INPUT"@,
                "-p"@,
                "tcp"@,
                "--dport"@,
                p,
                "-j"@,
                "ACCEPT"@,
                "-m"@,
                "comment"@,
                "--comment"@,
                "ZenoPanel: "@ + lockdown_rule_name(p),
            ],
    )
}

/// The comment name of the lockdown rule that allows `port`.
fn lockdown_rule_name_exec(port: &str) -> (r: String)
    ensures
        r@ == lockdown_rule_name(port@),
{
    let p = owned(port);
    if p == owned("22") {
        owned("Allow SSH (Port 22)")
    } else if p == owned("80") {
        owned("Allow HTTP (Port 80)")
    } else if p == owned("443") {
        owned("Allow HTTPS (Port 443)")
    } else if p == owned("3002") {
        owned("Allow ZenoPanel (Port 3002)")
    } else {
        concat("Allow Port ", port)
    }
}

/// The lockdown rules with operation `op` (`-A` to add, `-C` to check, `-D`
/// to delete) for the allowed `ports`.
pub fn lockdown_commands(op: &str, ports: &Vec<String>) -> (r: Vec<Vec<String>>)
    ensures
        arg_views(r@) == lockdown_rules(op@, views(ports@)),
{
    let mut r: Vec<Vec<String>> = Vec::new();
    let mut a: Vec<String> = Vec::new();
    a.push(owned(op));
    a.push(owned("INPUT"));
    a.push(owned("-i"));
    a.push(owned("lo"));
    a.push(owned("-j"));
    a.push(owned("ACCEPT"));
    a.push(owned("-m"));
    a.push(owned("comment"));
    a.push(owned("--comment"));
    a.push(owned("ZenoPanel: Allow Loopback"));
    assert(views(a@) =~= lockdown_rules(op@, views(ports@))[0]);
    let mut b: Vec<String> = Vec::new();
    b.push(owned(op));
    b.push(owned("INPUT"));
    b.push(owned("-m"));
    b.push(owned("conntrack"));
    b.push(owned("--ctstate"));
    b.push(owned("ESTABLISHED,RELATED"));
    b.push(owned("-j"));
    b.push(owned("ACCEPT"));
    b.push(owned("-m"));
    b.push(owned("comment"));
    b.push(owned("--comment"));
    b.push(owned("ZenoPanel: Allow Established/Related"));
    assert(views(b@) =~= lockdown_rules(op@, views(ports@))[1]);
    r.push(a);
    r.push(b);
    let mut i: usize = 0;
    while i < ports.len()
        invariant
            i <= ports.len(),
            r@.len() == 2 + i,
            views(r@[0]@) == lockdown_rules(op@, views(ports@))[0],
            views(r@[1]@) == lockdown_rules(op@, views(ports@))[1],
            forall|k: int|
                0 <= k < i ==> #[trigger] views(r@[2 + k]@) == lockdown_rules(op@, views(ports@))[2 + k],
        decreases ports.len() - i,
    {
        let name = lockdown_rule_name_exec(ports[i].as_str());
        let mut c: Vec<String> = Vec::new();
        c.push(owned(op));
        c.push(owned("INPUT"));
        c.push(owned("-p"));
        c.push(owned("tcp"));
        c.push(owned("--dport"));
        c.push(ports[i].clone());
        c.push(owned("-j"));
        c.push(owned("ACCEPT"));
        c.push(owned("-m"));
        c.push(owned("comment"));
        c.push(owned("--comment"));
        c.push(concat("ZenoPanel: ", name.as_str()));
        assert(views(c@) =~= lockdown_rules(op@, views(ports@))[2 + i]);
        r.push(c);
        i += 1;
    }
    assert forall|j: int| 0 <= j < r@.len() implies arg_views(r@)[j] == lockdown_rules(op@, views(ports@))[j] by {
        if j >= 2 {
            assert(views(r@[2 + (j - 2)]@) == lockdown_rules(op@, views(ports@))[2 + (j - 2)]);
        }
    }
    assert(arg_views(r@) =~= lockdown_rules(op@, views(ports@)));
    r
}

/// Lifting a lockdown deletes exactly the rules that imposing it adds: the two
/// lists have the same length and differ only in the operation.
pub proof fn law_lockdown_lift_mirrors_impose(ports: Seq<Seq<char>>)
    ensures
        lockdown_rules("-D"@, ports).len() == lockdown_rules("-A"@, ports).len(),
        forall|k: int|
            0 <= k < lockdown_rules("-A"@, ports).len() ==> #[trigger] lockdown_rules("-D"@, ports)[k] == lockdown_rules(
                "-A"@,
                ports,
            )[k].update(0, "-D"@),
{
    let a = lockdown_rules("-A"@, ports);
    let d = lockdown_rules("-D"@, ports);
    assert forall|k: int| 0 <= k < a.len() implies #[trigger] d[k] == a[k].update(0, "-D"@) by {
        assert(d[k] =~= a[k].update(0, "-D"@));
    }
}

/// A listed panel rule reads back with the action its line jumps to: when the
/// line holds `-j ACCEPT`, `-j DROP` or `-j REJECT` and no other of the three,
/// that is the action read.
pub proof fn law_listed_action_reads_back(line: Seq<char>, action: Seq<char>)
    requires
        contains(line, "ZenoPanel:"@),
        action == "ACCEPT"@ || action == "DROP"@ || action == "REJECT"@,
        contains(line, "-j "@ + action),
        action != "ACCEPT"@ ==> !contains(line, "-j ACCEPT"@),
        action != "DROP"@ ==> !contains(line, "-j DROP"@),
        action != "REJECT"@ ==> !contains(line, "-j REJECT"@),
    ensures
        firewall_rule_of(line) matches Some(r) && r.3 == action,
{
    reveal_strlit("-j ");
    reveal_strlit("ACCEPT");
    reveal_strlit("DROP");
    reveal_strlit("REJECT");
    reveal_strlit("-j ACCEPT");
    reveal_strlit("-j DROP");
    reveal_strlit("-j REJECT");
    assert("-j "@ + "ACCEPT"@ =~= "-j ACCEPT"@);
    assert("-j "@ + "DROP"@ =~= "-j DROP"@);
    assert("-j "@ + "REJECT"@ =~= "-j REJECT"@);
    assert("ACCEPT"@ != "DROP"@ && "ACCEPT"@ != "REJECT"@ && "DROP"@ != "REJECT"@) by {
        assert("ACCEPT"@.len() == 6 && "DROP"@.len() == 4 && "REJECT"@.len() == 6);
        assert("ACCEPT"@[0] != "REJECT"@[0]);
    }
}

} // verus!
