//! Port publishing rules (`[ip:]host:container[/proto]`) and the NAT rules that
//! forward a published port into a container.
use vstd::prelude::*;
use crate::text::{
    chars_of, concat, concat3, ends_with, ends_with_exec, owned, replace_char, replace_char_exec,
    split, split_exec, string_of_range, views,
};

verus! {

/// A published port: `[host_ip:]host_port:container_port[/protocol]`.
#[derive(Debug, Clone)]
pub struct PortRule {
    pub host_ip: Option<String>,
    pub host_port: String,
    pub container_port: String,
    /// `"tcp"` or `"udp"`.
    pub protocol: String,
}

/// A port rule as text.
pub struct PortRuleView {
    pub host_ip: Option<Seq<char>>,
    pub host_port: Seq<char>,
    pub container_port: Seq<char>,
    pub protocol: Seq<char>,
}

impl View for PortRule {
    type V = PortRuleView;

    open spec fn view(&self) -> PortRuleView {
        PortRuleView {
            host_ip: match self.host_ip {
                Some(h) => Some(h@),
                None => None,
            },
            host_port: self.host_port@,
            container_port: self.container_port@,
            protocol: self.protocol@,
        }
    }
}

/// The rule text without its protocol suffix, and the protocol (`tcp` when none is given).
pub open spec fn port_protocol(p: Seq<char>) -> (Seq<char>, Seq<char>) {
    if ends_with(p, "/udp"@) {
        (p.subrange(0, p.len() - 4), "udp"@)
    } else if ends_with(p, "/tcp"@) {
        (p.subrange(0, p.len() - 4), "tcp"@)
    } else {
        (p, "tcp"@)
    }
}

/// What `parse_port_rule` reads from `p`: three `:`-separated parts are
/// ip, host and container port; two are host and container port; one non-empty
/// part is both ports; anything else is no rule.
pub open spec fn port_rule_of(p: Seq<char>) -> Option<PortRuleView> {
    let (clean, protocol) = port_protocol(p);
    let parts = split(clean, seq![':']);
    if parts.len() == 3 {
        Some(
            PortRuleView {
                host_ip: Some(parts[0]),
                host_port: parts[1],
                container_port: parts[2],
                protocol,
            },
        )
    } else if parts.len() == 2 {
        Some(PortRuleView { host_ip: None, host_port: parts[0], container_port: parts[1], protocol })
    } else if parts.len() == 1 && parts[0].len() > 0 {
        Some(PortRuleView { host_ip: None, host_port: parts[0], container_port: parts[0], protocol })
    } else {
        None
    }
}

/// Parses a port publishing rule such as `8080:80`, `127.0.0.1:8080:80/udp` or `80`.
pub fn parse_port_rule(p: &str) -> (r: Option<PortRule>)
    ensures
        match port_rule_of(p@) {
            Some(v) => r matches Some(x) && x@ == v,
            None => r is None,
        },
{
    proof {
        reveal_strlit("/udp");
        reveal_strlit("/tcp");
        reveal_strlit(":");
    }
    let v = chars_of(p);
    let (clean, protocol) = if ends_with_exec(p, "/udp") {
        (string_of_range(&v, 0, v.len() - 4), owned("udp"))
    } else if ends_with_exec(p, "/tcp") {
        (string_of_range(&v, 0, v.len() - 4), owned("tcp"))
    } else {
        (owned(p), owned("tcp"))
    };
    assert(clean@ == port_protocol(p@).0);
    assert(protocol@ == port_protocol(p@).1);
    let parts = split_exec(clean.as_str(), ":");
    assert(":"@ == seq![':']);
    let ghost pv = views(parts@);
    assert(pv == split(clean@, seq![':']));
    assert(pv.len() == parts.len());
    if parts.len() == 3 {
        assert(pv[0] == parts[0]@ && pv[1] == parts[1]@ && pv[2] == parts[2]@);
        Some(
            PortRule {
                host_ip: Some(parts[0].clone()),
                host_port: parts[1].clone(),
                container_port: parts[2].clone(),
                protocol,
            },
        )
    } else if parts.len() == 2 {
        assert(pv[0] == parts[0]@ && pv[1] == parts[1]@);
        Some(
            PortRule {
                host_ip: None,
                host_port: parts[0].clone(),
                container_port: parts[1].clone(),
                protocol,
            },
        )
    } else if parts.len() == 1 {
        assert(pv[0] == parts[0]@);
        if parts[0].as_str().is_empty() {
            None
        } else {
            Some(
                PortRule {
                    host_ip: None,
                    host_port: parts[0].clone(),
                    container_port: parts[0].clone(),
                    protocol,
                },
            )
        }
    } else {
        None
    }
}

/// The iptables arguments of the DNAT rule that forwards `rule` to `ip`, with
/// `op` (`-A` to add, `-D` to delete) on `chain`.
pub open spec fn dnat_args(op: Seq<char>, chain: Seq<char>, rule: PortRuleView, ip: Seq<char>) -> Seq<
    Seq<char>,
> {
    seq!["-t"@, "nat"@, op, chain, "-p"@, rule.protocol] + (match rule.host_ip {
        Some(h) => seq!["-d"@, h],
        None => Seq::empty(),
    }) + seq![
        "--dport"@,
        replace_char(rule.host_port, '-', ":"@),
        "-j"@,
        "DNAT"@,
        "--to-destination"@,
        ip + ":"@ + rule.container_port,
    ]
}

/// The iptables arguments of the DNAT rule that forwards `rule` to `ip`.
pub fn dnat_rule_args(op: &str, chain: &str, rule: &PortRule, ip: &str) -> (r: Vec<String>)
    ensures
        views(r@) == dnat_args(op@, chain@, rule@, ip@),
{
    let mut r: Vec<String> = Vec::new();
    r.push(owned("-t"));
    r.push(owned("nat"));
    r.push(owned(op));
    r.push(owned(chain));
    r.push(owned("-p"));
    r.push(rule.protocol.clone());
    match &rule.host_ip {
        Some(h) => {
            r.push(owned("-d"));
            r.push(h.clone());
        },
        None => {},
    }
    r.push(owned("--dport"));
    r.push(replace_char_exec(rule.host_port.as_str(), '-', ":"));
    r.push(owned("-j"));
    r.push(owned("DNAT"));
    r.push(owned("--to-destination"));
    r.push(concat3(ip, ":", rule.container_port.as_str()));
    assert(views(r@) =~= dnat_args(op@, chain@, rule@, ip@));
    r
}

/// The DNAT rules, in order, for every publishable entry of `ports`: one on
/// `PREROUTING` and one on `OUTPUT` for each entry that parses.
pub open spec fn port_forward_rules(op: Seq<char>, ports: Seq<Seq<char>>, ip: Seq<char>) -> Seq<
    Seq<Seq<char>>,
>
    decreases ports.len(),
{
    if ports.len() == 0 {
        Seq::empty()
    } else {
        port_forward_rules(op, ports.drop_last(), ip) + match port_rule_of(ports.last()) {
            Some(rule) => seq![
                dnat_args(op, "PREROUTING"@, rule, ip),
                dnat_args(op, "OUTPUT"@, rule, ip),
            ],
            None => Seq::empty(),
        }
    }
}

/// The views of a list of argument lists.
pub open spec fn arg_views(v: Seq<Vec<String>>) -> Seq<Seq<Seq<char>>> {
    v.map_values(|a: Vec<String>| views(a@))
}

/// The DNAT rules for every publishable entry of `ports`, forwarding to `ip`.
pub fn port_forward_commands(op: &str, ports: &Vec<String>, ip: &str) -> (r: Vec<Vec<String>>)
    ensures
        arg_views(r@) == port_forward_rules(op@, views(ports@), ip@),
{
    let mut r: Vec<Vec<String>> = Vec::new();
    let mut i: usize = 0;
    while i < ports.len()
        invariant
            i <= ports.len(),
            arg_views(r@) == port_forward_rules(op@, views(ports@).take(i as int), ip@),
        decreases ports.len() - i,
    {
        let ghost before = arg_views(r@);
        assert(views(ports@).take((i + 1) as int).drop_last() =~= views(ports@).take(i as int));
        assert(views(ports@).take((i + 1) as int).last() == ports@[i as int]@);
        match parse_port_rule(ports[i].as_str()) {
            Some(rule) => {
                let a = dnat_rule_args(op, "PREROUTING", &rule, ip);
                let b = dnat_rule_args(op, "OUTPUT", &rule, ip);
                r.push(a);
                r.push(b);
                assert(arg_views(r@) =~= before + seq![views(a@), views(b@)]);
            },
            None => {
                assert(arg_views(r@) =~= before + Seq::<Seq<Seq<char>>>::empty());
            },
        }
        i += 1;
    }
    assert(views(ports@).take(ports.len() as int) =~= views(ports@));
    r
}

/// Every NAT rule that publishing adds (`-A`) is removed by the same rule with
/// `-D`: the two lists have the same length and differ only in the operation.
pub proof fn law_port_forward_delete_mirrors_add(ports: Seq<Seq<char>>, ip: Seq<char>)
    ensures
        port_forward_rules("-D"@, ports, ip).len() == port_forward_rules("-A"@, ports, ip).len(),
        forall|k: int|
            0 <= k < port_forward_rules("-A"@, ports, ip).len() ==> #[trigger] port_forward_rules(
                "-D"@,
                ports,
                ip,
            )[k] == port_forward_rules("-A"@, ports, ip)[k].update(2, "-D"@),
    decreases ports.len(),
{
    if ports.len() > 0 {
        law_port_forward_delete_mirrors_add(ports.drop_last(), ip);
        let a_prev = port_forward_rules("-A"@, ports.drop_last(), ip);
        let d_prev = port_forward_rules("-D"@, ports.drop_last(), ip);
        match port_rule_of(ports.last()) {
            Some(rule) => {
                assert(dnat_args("-D"@, "PREROUTING"@, rule, ip) =~= dnat_args(
                    "-A"@,
                    "PREROUTING"@,
                    rule,
                    ip,
                ).update(2, "-D"@));
                assert(dnat_args("-D"@, "OUTPUT"@, rule, ip) =~= dnat_args(
                    "-A"@,
                    "OUTPUT"@,
                    rule,
                    ip,
                ).update(2, "-D"@));
            },
            None => {},
        }
        let a = port_forward_rules("-A"@, ports, ip);
        let d = port_forward_rules("-D"@, ports, ip);
        assert forall|k: int| 0 <= k < a.len() implies #[trigger] d[k] == a[k].update(2, "-D"@) by {
            if k < a_prev.len() {
                assert(d[k] == d_prev[k]);
                assert(a[k] == a_prev[k]);
            }
        }
    }
}

/// The number of `:` in `s` from index `i` on.
pub open spec fn colons_from(s: Seq<char>, i: int) -> nat
    decreases s.len() - i,
{
    if i < 0 || i >= s.len() {
        0
    } else {
        (if s[i] == ':' {
            1nat
        } else {
            0nat
        }) + colons_from(s, i + 1)
    }
}

/// Splitting at `:` gives one part more than there are colons; with no colon
/// left, the one part is the rest of the text.
proof fn lemma_split_colons(s: Seq<char>, start: int, i: int)
    requires
        0 <= start <= i <= s.len(),
    ensures
        crate::text::split_scan(s, seq![':'], start, i).len() == 1 + colons_from(s, i),
        colons_from(s, i) == 0 ==> crate::text::split_scan(s, seq![':'], start, i) == seq![
            s.subrange(start, s.len() as int),
        ],
    decreases s.len() - i,
{
    let p = seq![':'];
    if i + 1 <= s.len() {
        assert(crate::text::matches_at(s, p, i) <==> s[i] == ':') by {
            if s[i] == ':' {
                assert(s.subrange(i, i + 1) =~= p);
            }
            if crate::text::matches_at(s, p, i) {
                assert(s.subrange(i, i + 1)[0] == s[i]);
            }
        }
        lemma_split_colons(s, if s[i] == ':' {
            i + 1
        } else {
            start
        }, i + 1);
    }
}

/// A port rule is refused exactly when the text without its protocol is empty
/// or holds three colons or more.
pub proof fn law_port_rule_refused(p: Seq<char>)
    ensures
        port_rule_of(p) is None <==> (port_protocol(p).0.len() == 0 || colons_from(port_protocol(p).0, 0) >= 3),
{
    let clean = port_protocol(p).0;
    lemma_split_colons(clean, 0, 0);
    if colons_from(clean, 0) == 0 {
        assert(clean.subrange(0, clean.len() as int) =~= clean);
    }
}

/// Whether `t` holds no `:`.
pub open spec fn no_colon(t: Seq<char>) -> bool {
    forall|j: int| 0 <= j < t.len() ==> t[j] != ':'
}

/// Joining a first part to the others puts one separator between them.
proof fn lemma_join_front(a: Seq<char>, rest: Seq<Seq<char>>, sep: Seq<char>)
    requires
        rest.len() >= 1,
    ensures
        crate::text::join(seq![a] + rest, sep) == a + sep + crate::text::join(rest, sep),
    decreases rest.len(),
{
    let all = seq![a] + rest;
    if rest.len() == 1 {
        assert(all.drop_last() =~= seq![a]);
        assert(all.last() == rest[0]);
        assert(crate::text::join(seq![a], sep) == a);
        assert(crate::text::join(rest, sep) == rest[0]);
        assert(crate::text::join(all, sep) == crate::text::join(all.drop_last(), sep) + sep + all.last());
    } else {
        assert(all.drop_last() =~= seq![a] + rest.drop_last());
        lemma_join_front(a, rest.drop_last(), sep);
        assert(all.last() == rest.last());
        assert(crate::text::join(all, sep) == crate::text::join(all.drop_last(), sep) + sep + all.last());
        assert(crate::text::join(rest, sep) == crate::text::join(rest.drop_last(), sep) + sep + rest.last());
        assert(a + sep + crate::text::join(rest.drop_last(), sep) + sep + rest.last() =~= a + sep + (
        crate::text::join(rest.drop_last(), sep) + sep + rest.last()));
    }
}

/// The parts of a split at `:` hold no `:` and join back into the text.
proof fn lemma_split_join(s: Seq<char>, start: int, i: int)
    requires
        0 <= start <= i <= s.len(),
        forall|j: int| start <= j < i ==> s[j] != ':',
    ensures
        crate::text::join(crate::text::split_scan(s, seq![':'], start, i), seq![':']) == s.subrange(
            start,
            s.len() as int,
        ),
        forall|k: int|
            0 <= k < crate::text::split_scan(s, seq![':'], start, i).len() ==> no_colon(
                #[trigger] crate::text::split_scan(s, seq![':'], start, i)[k],
            ),
    decreases s.len() - i,
{
    let p = seq![':'];
    if i + 1 <= s.len() {
        assert(crate::text::matches_at(s, p, i) <==> s[i] == ':') by {
            if s[i] == ':' {
                assert(s.subrange(i, i + 1) =~= p);
            }
            if crate::text::matches_at(s, p, i) {
                assert(s.subrange(i, i + 1)[0] == s[i]);
            }
        }
        if s[i] == ':' {
            lemma_split_join(s, i + 1, i + 1);
            lemma_split_colons(s, i + 1, i + 1);
            let rest = crate::text::split_scan(s, p, i + 1, i + 1);
            lemma_join_front(s.subrange(start, i), rest, p);
            assert(s.subrange(start, i) + p + s.subrange(i + 1, s.len() as int) =~= s.subrange(start, s.len() as int));
            let all = crate::text::split_scan(s, p, start, i);
            assert(all == seq![s.subrange(start, i)] + rest);
            assert forall|k: int| 0 <= k < all.len() implies no_colon(#[trigger] all[k]) by {
                if k > 0 {
                    assert(all[k] == rest[k - 1]);
                }
            }
        } else {
            lemma_split_join(s, start, i + 1);
        }
    }
}

/// A rule gives back its text: the text without its protocol is the ip, host
/// and container port (those that are there) joined by `:`, none of which
/// holds a `:`; a rule written without `:` has one port for both.
pub proof fn law_port_rule_parts(p: Seq<char>)
    ensures
        port_rule_of(p) matches Some(r) ==> {
            let clean = port_protocol(p).0;
            &&& no_colon(r.host_port) && no_colon(r.container_port)
            &&& clean == match r.host_ip {
                Some(h) => h + ":"@ + r.host_port + ":"@ + r.container_port,
                None => if colons_from(clean, 0) > 0 {
                    r.host_port + ":"@ + r.container_port
                } else {
                    r.host_port
                },
            }
            &&& r.host_ip matches Some(h) ==> no_colon(h)
            &&& colons_from(clean, 0) == 0 ==> r.container_port == r.host_port
        },
{
    reveal_strlit(":");
    let clean = port_protocol(p).0;
    let c = seq![':'];
    assert(":"@ =~= c);
    lemma_split_join(clean, 0, 0);
    lemma_split_colons(clean, 0, 0);
    assert(clean.subrange(0, clean.len() as int) =~= clean);
    let parts = crate::text::split(clean, c);
    assert(crate::text::join(parts, c) == clean);
    if parts.len() == 3 {
        let d = parts.drop_last();
        assert(d =~= seq![parts[0], parts[1]]);
        assert(d.drop_last() =~= seq![parts[0]]);
        assert(crate::text::join(d.drop_last(), c) == parts[0]);
        assert(crate::text::join(d, c) == parts[0] + c + parts[1]);
        assert(crate::text::join(parts, c) == crate::text::join(d, c) + c + parts[2]);
        assert(no_colon(parts[0]) && no_colon(parts[1]) && no_colon(parts[2]));
    } else if parts.len() == 2 {
        let d = parts.drop_last();
        assert(d =~= seq![parts[0]]);
        assert(crate::text::join(d, c) == parts[0]);
        assert(crate::text::join(parts, c) == parts[0] + c + parts[1]);
        assert(no_colon(parts[0]) && no_colon(parts[1]));
    } else if parts.len() == 1 {
        assert(crate::text::join(parts, c) == parts[0]);
        assert(no_colon(parts[0]));
    }
}

/// The split at `:` passes over text without a `:`.
proof fn lemma_scan_skip(s: Seq<char>, start: int, i: int, k: int)
    requires
        0 <= start <= i <= k <= s.len(),
        forall|j: int| i <= j < k ==> s[j] != ':',
    ensures
        crate::text::split_scan(s, seq![':'], start, i) == crate::text::split_scan(s, seq![':'], start, k),
    decreases k - i,
{
    if i < k {
        if crate::text::matches_at(s, seq![':'], i) {
            assert(s.subrange(i, i + 1)[0] == s[i]);
        }
        lemma_scan_skip(s, start, i + 1, k);
    }
}

/// The tail of a split at `:` over text without a `:` is that text.
proof fn lemma_scan_tail(s: Seq<char>, start: int)
    requires
        0 <= start <= s.len(),
        forall|j: int| start <= j < s.len() ==> s[j] != ':',
    ensures
        crate::text::split_scan(s, seq![':'], start, start) == seq![s.subrange(start, s.len() as int)],
{
    lemma_scan_skip(s, start, start, s.len() as int);
}

/// A split at `:` steps over one `:` at `k`, after text without a `:`.
proof fn lemma_scan_step(s: Seq<char>, start: int, k: int)
    requires
        0 <= start <= k < s.len(),
        s[k] == ':',
        forall|j: int| start <= j < k ==> s[j] != ':',
    ensures
        crate::text::split_scan(s, seq![':'], start, start) == seq![s.subrange(start, k)]
            + crate::text::split_scan(s, seq![':'], k + 1, k + 1),
{
    lemma_scan_skip(s, start, start, k);
    assert(s.subrange(k, k + 1) =~= seq![':']);
}

/// `h:c` splits at `:` into `h` and `c` when neither holds a `:`.
proof fn lemma_split_two(h: Seq<char>, c: Seq<char>)
    requires
        no_colon(h),
        no_colon(c),
    ensures
        crate::text::split(h + seq![':'] + c, seq![':']) == seq![h, c],
{
    let s = h + seq![':'] + c;
    let k = h.len() as int;
    assert forall|j: int| 0 <= j < k implies s[j] != ':' by {
        assert(s[j] == h[j]);
    }
    assert forall|j: int| k + 1 <= j < s.len() implies s[j] != ':' by {
        assert(s[j] == c[j - k - 1]);
    }
    assert(s[k] == ':');
    lemma_scan_step(s, 0, k);
    lemma_scan_tail(s, k + 1);
    assert(s.subrange(0, k) =~= h);
    assert(s.subrange(k + 1, s.len() as int) =~= c);
}

/// `a:h:c` splits at `:` into `a`, `h` and `c` when none holds a `:`.
proof fn lemma_split_three(a: Seq<char>, h: Seq<char>, c: Seq<char>)
    requires
        no_colon(a),
        no_colon(h),
        no_colon(c),
    ensures
        crate::text::split(a + seq![':'] + h + seq![':'] + c, seq![':']) == seq![a, h, c],
{
    let s = a + seq![':'] + h + seq![':'] + c;
    let k1 = a.len() as int;
    let k2 = k1 + 1 + h.len();
    assert forall|j: int| 0 <= j < k1 implies s[j] != ':' by {
        assert(s[j] == a[j]);
    }
    assert forall|j: int| k1 + 1 <= j < k2 implies s[j] != ':' by {
        assert(s[j] == h[j - k1 - 1]);
    }
    assert forall|j: int| k2 + 1 <= j < s.len() implies s[j] != ':' by {
        assert(s[j] == c[j - k2 - 1]);
    }
    assert(s[k1] == ':' && s[k2] == ':');
    lemma_scan_step(s, 0, k1);
    lemma_scan_step(s, k1 + 1, k2);
    lemma_scan_tail(s, k2 + 1);
    assert(s.subrange(0, k1) =~= a);
    assert(s.subrange(k1 + 1, k2) =~= h);
    assert(s.subrange(k2 + 1, s.len() as int) =~= c);
    assert(seq![s.subrange(0, k1)] + (seq![s.subrange(k1 + 1, k2)] + seq![s.subrange(k2 + 1, s.len() as int)])
        =~= seq![a, h, c]);
}

/// The DNAT rule that forwards traffic for `port` on `chain`: to host port
/// `host` (a range `a-b` written `a:b`), sent on to `ip` at container port
/// `cont`, for the address `addr` when one is given.
pub open spec fn forward_rule(
    op: Seq<char>,
    chain: Seq<char>,
    proto: Seq<char>,
    addr: Option<Seq<char>>,
    host: Seq<char>,
    cont: Seq<char>,
    ip: Seq<char>,
) -> Seq<Seq<char>> {
    seq!["-t"@, "nat"@, op, chain, "-p"@, proto] + (match addr {
        Some(a) => seq!["-d"@, a],
        None => Seq::empty(),
    }) + seq!["--dport"@, replace_char(host, '-', ":"@), "-j"@, "DNAT"@, "--to-destination"@, ip + ":"@ + cont]
}

/// Publishing `host:container/proto` (or `addr:host:container/proto`) adds one
/// DNAT rule on `PREROUTING` and one on `OUTPUT`, each matching the host port
/// and sending the traffic to the container's address at the container port.
pub proof fn law_publish_forwards_host_port(
    op: Seq<char>,
    addr: Seq<char>,
    host: Seq<char>,
    cont: Seq<char>,
    proto: Seq<char>,
    ip: Seq<char>,
)
    requires
        no_colon(addr),
        no_colon(host),
        no_colon(cont),
        proto == "tcp"@ || proto == "udp"@,
    ensures
        port_forward_rules(op, seq![host + ":"@ + cont + "/"@ + proto], ip) == seq![
            forward_rule(op, "PREROUTING"@, proto, None, host, cont, ip),
            forward_rule(op, "OUTPUT"@, proto, None, host, cont, ip),
        ],
        port_forward_rules(op, seq![addr + ":"@ + host + ":"@ + cont + "/"@ + proto], ip) == seq![
            forward_rule(op, "PREROUTING"@, proto, Some(addr), host, cont, ip),
            forward_rule(op, "OUTPUT"@, proto, Some(addr), host, cont, ip),
        ],
{
    reveal_strlit(":");
    reveal_strlit("/");
    reveal_strlit("tcp");
    reveal_strlit("udp");
    reveal_strlit("/udp");
    reveal_strlit("/tcp");
    let colon = seq![':'];
    assert(":"@ =~= colon);
    let two = host + ":"@ + cont;
    let three = addr + ":"@ + host + ":"@ + cont;
    lemma_split_two(host, cont);
    lemma_split_three(addr, host, cont);
    let p2 = two + "/"@ + proto;
    let p3 = three + "/"@ + proto;
    assert(p2.subrange(p2.len() - 4, p2.len() as int) =~= "/"@ + proto);
    assert(p3.subrange(p3.len() - 4, p3.len() as int) =~= "/"@ + proto);
    assert(p2.subrange(0, p2.len() - 4) =~= two);
    assert(p3.subrange(0, p3.len() - 4) =~= three);
    if proto == "tcp"@ {
        assert("/"@ + proto =~= "/tcp"@);
        assert("/tcp"@ != "/udp"@) by {
            assert("/tcp"@[1] != "/udp"@[1]);
        }
    } else {
        assert("/"@ + proto =~= "/udp"@);
    }
    assert(port_protocol(p2) == (two, proto));
    assert(port_protocol(p3) == (three, proto));
    assert(seq![p2].drop_last() =~= Seq::<Seq<char>>::empty());
    assert(seq![p3].drop_last() =~= Seq::<Seq<char>>::empty());
    assert(crate::text::split(two, colon) == seq![host, cont]);
    assert(port_rule_of(p2) == Some(PortRuleView { host_ip: None, host_port: host, container_port: cont, protocol: proto }));
    assert(seq![p2].last() == p2);
    let r2 = port_rule_of(p2)->Some_0;
    let r3 = port_rule_of(p3)->Some_0;
    assert(dnat_args(op, "PREROUTING"@, r2, ip) =~= forward_rule(op, "PREROUTING"@, proto, None, host, cont, ip));
    assert(dnat_args(op, "OUTPUT"@, r2, ip) =~= forward_rule(op, "OUTPUT"@, proto, None, host, cont, ip));
    assert(dnat_args(op, "PREROUTING"@, r3, ip) =~= forward_rule(op, "PREROUTING"@, proto, Some(addr), host, cont, ip));
    assert(dnat_args(op, "OUTPUT"@, r3, ip) =~= forward_rule(op, "OUTPUT"@, proto, Some(addr), host, cont, ip));
    assert(port_forward_rules(op, Seq::<Seq<char>>::empty(), ip) == Seq::<Seq<Seq<char>>>::empty());
    assert(port_forward_rules(op, seq![p2], ip) == port_forward_rules(op, Seq::<Seq<char>>::empty(), ip) + seq![
        dnat_args(op, "PREROUTING"@, r2, ip),
        dnat_args(op, "OUTPUT"@, r2, ip),
    ]);
    assert(port_forward_rules(op, seq![p2], ip) =~= seq![
        forward_rule(op, "PREROUTING"@, proto, None, host, cont, ip),
        forward_rule(op, "OUTPUT"@, proto, None, host, cont, ip),
    ]);
    assert(port_forward_rules(op, seq![p3], ip) =~= seq![
        forward_rule(op, "PREROUTING"@, proto, Some(addr), host, cont, ip),
        forward_rule(op, "OUTPUT"@, proto, Some(addr), host, cont, ip),
    ]);
}

/// Each entry that parses publishes its host port: the rules on `PREROUTING`
/// and `OUTPUT` match the rule's host port (a range `a-b` written `a:b`) and
/// send the traffic to `ip` at the rule's container port; an entry that does
/// not parse adds no rule.
pub proof fn law_forward_rules_follow_rule(op: Seq<char>, p: Seq<char>, ip: Seq<char>)
    ensures
        port_forward_rules(op, seq![p], ip) == match port_rule_of(p) {
            Some(r) => seq![
                forward_rule(op, "PREROUTING"@, r.protocol, r.host_ip, r.host_port, r.container_port, ip),
                forward_rule(op, "OUTPUT"@, r.protocol, r.host_ip, r.host_port, r.container_port, ip),
            ],
            None => Seq::<Seq<Seq<char>>>::empty(),
        },
{
    assert(seq![p].drop_last() =~= Seq::<Seq<char>>::empty());
    assert(seq![p].last() == p);
    assert(port_forward_rules(op, Seq::<Seq<char>>::empty(), ip) == Seq::<Seq<Seq<char>>>::empty());
    match port_rule_of(p) {
        Some(r) => {
            assert(dnat_args(op, "PREROUTING"@, r, ip) =~= forward_rule(op, "PREROUTING"@, r.protocol, r.host_ip, r.host_port, r.container_port, ip));
            assert(dnat_args(op, "OUTPUT"@, r, ip) =~= forward_rule(op, "OUTPUT"@, r.protocol, r.host_ip, r.host_port, r.container_port, ip));
            assert(port_forward_rules(op, seq![p], ip) =~= seq![
                forward_rule(op, "PREROUTING"@, r.protocol, r.host_ip, r.host_port, r.container_port, ip),
                forward_rule(op, "OUTPUT"@, r.protocol, r.host_ip, r.host_port, r.container_port, ip),
            ]);
        },
        None => {
            assert(port_forward_rules(op, seq![p], ip) =~= Seq::<Seq<Seq<char>>>::empty());
        },
    }
}

} // verus!
