//! Container networks: the bridges that containers attach to, the addresses
//! they are given, the NAT rules that carry their traffic, and the hosts file
//! through which running containers find each other.
use vstd::prelude::*;
use std::hash::{Hash, Hasher};
use crate::num::{IntErrorKind, decimal, hex8_string, radix_digits, zero_pad, int_error_message, int_error_text, int_to_string, parse_i32, parse_i32_exec};
use crate::ports::{arg_views, port_forward_commands, port_forward_rules};
use crate::text::{concat, concat3, owned, split, split_exec, views};

verus! {

/// A user-defined bridge network, as kept in `networks.json`.
pub struct NetworkConfig {
    pub id: String,
    pub name: String,
    pub driver: String,
    pub subnet: String,
    pub gateway: String,
}

/// What a network is: its fields as text.
pub struct NetworkView {
    pub id: Seq<char>,
    pub name: Seq<char>,
    pub driver: Seq<char>,
    pub subnet: Seq<char>,
    pub gateway: Seq<char>,
}

impl View for NetworkConfig {
    type V = NetworkView;

    open spec fn view(&self) -> NetworkView {
        NetworkView {
            id: self.id@,
            name: self.name@,
            driver: self.driver@,
            subnet: self.subnet@,
            gateway: self.gateway@,
        }
    }
}

/// The views of a list of networks.
pub open spec fn network_views(nets: Seq<NetworkConfig>) -> Seq<NetworkView> {
    nets.map_values(|n: NetworkConfig| n@)
}

/// What network code needs to know of a container: its id, its status, the
/// address it was given (`ZENO_IP`) and the network it asked for.
pub struct ContainerNet {
    pub id: String,
    pub status: String,
    pub ip: Option<String>,
    pub network: Option<String>,
}

/// The view of an optional string.
pub open spec fn opt_text(o: Option<String>) -> Option<Seq<char>> {
    match o {
        Some(s) => Some(s@),
        None => None,
    }
}

/// Whether a container is running.
pub open spec fn is_running(c: ContainerNet) -> bool {
    c.status@ == "running"@
}

/// The second number of a dotted subnet, when the subnet has one that parses.
pub open spec fn subnet_octet(subnet: Seq<char>) -> Option<int> {
    let parts = split(subnet, "."@);
    if parts.len() > 1 {
        match parse_i32(parts[1]) {
            Ok(x) => Some(x),
            Err(_) => None,
        }
    } else {
        None
    }
}

/// `172.<x>.0.<i>`.
pub open spec fn host_ip(x: int, i: int) -> Seq<char> {
    "172."@ + decimal(x) + ".0."@ + decimal(i)
}

/// Whether `ip` is the gateway or the address of a running container.
pub open spec fn ip_taken(ip: Seq<char>, gateway: Seq<char>, cs: Seq<ContainerNet>) -> bool {
    ip == gateway || exists|k: int|
        0 <= k < cs.len() && is_running(cs[k]) && #[trigger] opt_text(cs[k].ip) == Some(ip)
}

/// The first host number from `i` up to 254 whose address is free.
pub open spec fn first_free_host(x: int, gateway: Seq<char>, cs: Seq<ContainerNet>, i: int) -> Option<
    int,
>
    decreases 255 - i,
{
    if i >= 255 {
        None
    } else if !ip_taken(host_ip(x, i), gateway, cs) {
        Some(i)
    } else {
        first_free_host(x, gateway, cs, i + 1)
    }
}

/// The address a container is given is the lowest free one: no free host
/// number from `i` up to it is skipped, and there is none only when every host
/// number from `i` to 254 is the gateway or a running container's.
pub proof fn law_first_free_host_least(x: int, gateway: Seq<char>, cs: Seq<ContainerNet>, i: int)
    ensures
        match first_free_host(x, gateway, cs, i) {
            Some(k) => i <= k <= 254 && !ip_taken(host_ip(x, k), gateway, cs) && forall|m: int|
                i <= m < k ==> ip_taken(#[trigger] host_ip(x, m), gateway, cs),
            None => forall|m: int| i <= m <= 254 ==> ip_taken(#[trigger] host_ip(x, m), gateway, cs),
        },
    decreases 255 - i,
{
    if i < 255 && ip_taken(host_ip(x, i), gateway, cs) {
        law_first_free_host_least(x, gateway, cs, i + 1);
    }
}

/// The address that a container joining the network with `subnet` and
/// `gateway` is given, or why there is none.
pub open spec fn available_ip(subnet: Seq<char>, gateway: Seq<char>, cs: Seq<ContainerNet>) -> Result<
    Seq<char>,
    Seq<char>,
> {
    let parts = split(subnet, "."@);
    if parts.len() < 2 {
        Err("Invalid subnet: "@ + subnet)
    } else {
        match parse_i32(parts[1]) {
            Err(e) => Err("Invalid subnet number: "@ + int_error_message(e)),
            Ok(x) => match first_free_host(x, gateway, cs, 2) {
                Some(i) => Ok(host_ip(x, i)),
                None => Err("No available IP addresses"@),
            },
        }
    }
}

/// Whether `ip` is the gateway or the address of a running container.
fn ip_taken_exec(ip: &String, gateway: &str, cs: &Vec<ContainerNet>) -> (b: bool)
    ensures
        b == ip_taken(ip@, gateway@, cs@),
{
    let g = owned(gateway);
    if *ip == g {
        return true;
    }
    let running = owned("running");
    let mut k: usize = 0;
    while k < cs.len()
        invariant
            k <= cs.len(),
            running@ == "running"@,
            ip@ != gateway@,
            forall|j: int|
                0 <= j < k ==> !(is_running(cs@[j]) && #[trigger] opt_text(cs@[j].ip) == Some(
                    ip@,
                )),
        decreases cs.len() - k,
    {
        let c = &cs[k];
        if c.status == running {
            match &c.ip {
                Some(a) => {
                    if *a == *ip {
                        assert(is_running(cs@[k as int]) && opt_text(cs@[k as int].ip) == Some(
                            ip@,
                        ));
                        return true;
                    }
                },
                None => {},
            }
        }
        k += 1;
    }
    false
}

/// The address of host `i` on subnet `172.<x>.0.0`.
fn host_ip_exec(x: i32, i: i64) -> (r: String)
    ensures
        r@ == host_ip(x as int, i as int),
{
    let xs = int_to_string(x as i64);
    let is = int_to_string(i);
    let a = concat3("172.", xs.as_str(), ".0.");
    concat(a.as_str(), is.as_str())
}

/// The first free address on the network with `subnet` and `gateway`: hosts 2
/// to 254 in order, skipping the gateway and the addresses of the running
/// containers in `containers`.
pub fn find_available_ip(subnet: &str, gateway: &str, containers: &Vec<ContainerNet>) -> (r: Result<
    String,
    String,
>)
    ensures
        match available_ip(subnet@, gateway@, containers@) {
            Ok(ip) => r matches Ok(s) && s@ == ip,
            Err(m) => r matches Err(s) && s@ == m,
        },
{
    proof {
        reveal_strlit(".");
    }
    let parts = split_exec(subnet, ".");
    if parts.len() < 2 {
        return Err(concat("Invalid subnet: ", subnet));
    }
    assert(views(parts@)[1] == parts@[1]@);
    let x = match parse_i32_exec(parts[1].as_str()) {
        Ok(x) => x,
        Err(e) => {
            let m = int_error_text(e);
            return Err(concat("Invalid subnet number: ", m.as_str()));
        },
    };
    let mut i: i64 = 2;
    while i < 255
        invariant
            2 <= i <= 255,
            parts@.len() >= 2,
            views(parts@) == split(subnet@, "."@),
            parse_i32(parts@[1]@) == Ok::<int, IntErrorKind>(x as int),
            first_free_host(x as int, gateway@, containers@, 2) == first_free_host(
                x as int,
                gateway@,
                containers@,
                i as int,
            ),
        decreases 255 - i,
    {
        let ip = host_ip_exec(x, i);
        if !ip_taken_exec(&ip, gateway, containers) {
            return Ok(ip);
        }
        i += 1;
    }
    Err(owned("No available IP addresses"))
}

/// The network that a container asks for by name: the default bridge
/// `zenobr0` on `172.20.0.0/16`, unless the name is neither empty, `bridge` nor
/// `default` and some network has it as name or id (the first such).
pub open spec fn resolved_network(nets: Seq<NetworkView>, name: Seq<char>) -> (Seq<char>, Seq<char>, Seq<
    char,
>) {
    let default = ("zenobr0"@, "172.20.0.0/16"@, "172.20.0.1"@);
    if name.len() == 0 || name == "bridge"@ || name == "default"@ {
        default
    } else {
        match first_network_named(nets, name, 0) {
            Some(k) => (nets[k].id, nets[k].subnet, nets[k].gateway),
            None => default,
        }
    }
}

/// The index of the first network from `i` on whose name or id is `name`.
pub open spec fn first_network_named(nets: Seq<NetworkView>, name: Seq<char>, i: int) -> Option<int>
    decreases nets.len() - i,
{
    if i < 0 || i >= nets.len() {
        None
    } else if nets[i].name == name || nets[i].id == name {
        Some(i)
    } else {
        first_network_named(nets, name, i + 1)
    }
}

/// The index of the first network named `name` or with id `name`.
fn find_network(nets: &Vec<NetworkConfig>, name: &str) -> (r: Option<usize>)
    ensures
        match first_network_named(network_views(nets@), name@, 0) {
            Some(k) => r matches Some(i) && i as int == k,
            None => r is None,
        },
        r matches Some(i) ==> i < nets.len(),
{
    let ghost nv = network_views(nets@);
    let n = owned(name);
    let mut i: usize = 0;
    while i < nets.len()
        invariant
            i <= nets.len(),
            n@ == name@,
            nv == network_views(nets@),
            first_network_named(nv, name@, 0) == first_network_named(nv, name@, i as int),
        decreases nets.len() - i,
    {
        assert(nv[i as int] == nets@[i as int]@);
        if nets[i].name == n || nets[i].id == n {
            return Some(i);
        }
        i += 1;
    }
    None
}

/// The bridge, subnet and gateway of the network that a container asks for.
pub fn resolve_network(nets: &Vec<NetworkConfig>, name: &str) -> (r: (String, String, String))
    ensures
        (r.0@, r.1@, r.2@) == resolved_network(network_views(nets@), name@),
{
    let n = owned(name);
    let bridge = owned("bridge");
    let default = owned("default");
    if name.is_empty() || n == bridge || n == default {
        return (owned("zenobr0"), owned("172.20.0.0/16"), owned("172.20.0.1"));
    }
    match find_network(nets, name) {
        Some(k) => {
            assert(network_views(nets@)[k as int] == nets@[k as int]@);
            (nets[k].id.clone(), nets[k].subnet.clone(), nets[k].gateway.clone())
        },
        None => (owned("zenobr0"), owned("172.20.0.0/16"), owned("172.20.0.1")),
    }
}

/// Whether some network from `i` on has the name `name`.
pub open spec fn name_taken(nets: Seq<NetworkView>, name: Seq<char>) -> bool {
    exists|k: int| 0 <= k < nets.len() && #[trigger] nets[k].name == name
}

/// Whether some network's subnet has `x` as its second number.
pub open spec fn octet_used(nets: Seq<NetworkView>, x: int) -> bool {
    exists|k: int| 0 <= k < nets.len() && #[trigger] subnet_octet(nets[k].subnet) == Some(x)
}

/// The first second number from `x` up to 31 that no network's subnet uses.
pub open spec fn first_free_octet(nets: Seq<NetworkView>, x: int) -> Option<int>
    decreases 32 - x,
{
    if x > 31 {
        None
    } else if !octet_used(nets, x) {
        Some(x)
    } else {
        first_free_octet(nets, x + 1)
    }
}

/// A new bridge takes the lowest free subnet: no unused octet from `x` up to
/// it is skipped, and there is none only when every octet from `x` to 31 is in
/// use.
pub proof fn law_first_free_octet_least(nets: Seq<NetworkView>, x: int)
    ensures
        match first_free_octet(nets, x) {
            Some(k) => x <= k <= 31 && !octet_used(nets, k) && forall|m: int|
                x <= m < k ==> #[trigger] octet_used(nets, m),
            None => forall|m: int| x <= m <= 31 ==> #[trigger] octet_used(nets, m),
        },
    decreases 32 - x,
{
    if x <= 31 && octet_used(nets, x) {
        law_first_free_octet_least(nets, x + 1);
    }
}

/// The network that creating a bridge named `name` adds to `nets`, or why none
/// is added: the name is taken, the name is reserved, or the subnets
/// `172.21.0.0/16` to `172.31.0.0/16` are all in use.
pub open spec fn created_network(nets: Seq<NetworkView>, name: Seq<char>) -> Result<NetworkView, Seq<char>> {
    if name_taken(nets, name) {
        Err("Network "@ + name + " already exists"@)
    } else if name == "bridge"@ || name == "default"@ {
        Err("Network name "@ + name + " is reserved"@)
    } else {
        match first_free_octet(nets, 21) {
            None => Err("No subnets available in 172.21.0.0/16 - 172.31.0.0/16"@),
            Some(x) => Ok(
                NetworkView {
                    id: "zenobr"@ + decimal(x),
                    name: name,
                    driver: "bridge"@,
                    subnet: "172."@ + decimal(x) + ".0.0/16"@,
                    gateway: "172."@ + decimal(x) + ".0.1"@,
                },
            ),
        }
    }
}

/// The second number of a subnet, when it has one that parses.
fn subnet_octet_exec(subnet: &str) -> (r: Option<i32>)
    ensures
        match subnet_octet(subnet@) {
            Some(x) => r == Some(x as i32),
            None => r is None,
        },
        r matches Some(y) ==> subnet_octet(subnet@) == Some(y as int),
{
    proof {
        reveal_strlit(".");
    }
    let parts = split_exec(subnet, ".");
    if parts.len() > 1 {
        assert(views(parts@)[1] == parts@[1]@);
        match parse_i32_exec(parts[1].as_str()) {
            Ok(x) => Some(x),
            Err(_) => None,
        }
    } else {
        None
    }
}

/// Whether some network's subnet has `x` as its second number.
fn octet_used_exec(nets: &Vec<NetworkConfig>, x: i32) -> (b: bool)
    ensures
        b == octet_used(network_views(nets@), x as int),
{
    let ghost nv = network_views(nets@);
    let mut k: usize = 0;
    while k < nets.len()
        invariant
            k <= nets.len(),
            nv == network_views(nets@),
            forall|j: int| 0 <= j < k ==> #[trigger] subnet_octet(nv[j].subnet) != Some(x as int),
        decreases nets.len() - k,
    {
        assert(nv[k as int] == nets@[k as int]@);
        match subnet_octet_exec(nets[k].subnet.as_str()) {
            Some(y) => {
                if y == x {
                    assert(subnet_octet(nv[k as int].subnet) == Some(x as int));
                    return true;
                }
            },
            None => {},
        }
        k += 1;
    }
    false
}

/// The first second number from 21 to 31 that no network's subnet uses.
fn first_free_octet_exec(nets: &Vec<NetworkConfig>) -> (r: Option<i32>)
    ensures
        match first_free_octet(network_views(nets@), 21) {
            Some(x) => r == Some(x as i32) && 21 <= x <= 31,
            None => r is None,
        },
{
    let mut x: i32 = 21;
    while x <= 31
        invariant
            21 <= x <= 32,
            first_free_octet(network_views(nets@), 21) == first_free_octet(network_views(nets@), x as int),
        decreases 32 - x,
    {
        if !octet_used_exec(nets, x) {
            return Some(x);
        }
        x += 1;
    }
    None
}

/// Adds a bridge network named `name` to `networks` and returns its id: the
/// first subnet `172.<x>.0.0/16` with `x` from 21 to 31 that no network uses,
/// with bridge `zenobr<x>` and gateway `172.<x>.0.1`. Fails, leaving
/// `networks` as it was, when the name is taken or reserved or no subnet is free.
pub fn create_bridge_network(networks: &mut Vec<NetworkConfig>, name: &str) -> (r: Result<String, String>)
    ensures
        match created_network(network_views(old(networks)@), name@) {
            Ok(n) => r matches Ok(id) && id@ == n.id && final(networks)@.len() == old(networks)@.len() + 1
                && final(networks)@.subrange(0, old(networks)@.len() as int) == old(networks)@
                && final(networks)@.last()@ == n,
            Err(m) => r matches Err(e) && e@ == m && final(networks)@ == old(networks)@,
        },
{
    let ghost nv = network_views(networks@);
    let n = owned(name);
    let mut k: usize = 0;
    while k < networks.len()
        invariant
            k <= networks.len(),
            n@ == name@,
            nv == network_views(networks@),
            forall|j: int| 0 <= j < k ==> #[trigger] nv[j].name != name@,
        decreases networks.len() - k,
    {
        assert(nv[k as int] == networks@[k as int]@);
        if networks[k].name == n {
            assert(nv[k as int].name == name@);
            let a = concat("Network ", name);
            return Err(concat(a.as_str(), " already exists"));
        }
        k += 1;
    }
    let bridge = owned("bridge");
    let default = owned("default");
    if n == bridge || n == default {
        let a = concat("Network name ", name);
        return Err(concat(a.as_str(), " is reserved"));
    }
    let x = match first_free_octet_exec(networks) {
        Some(x) => x,
        None => {
            return Err(owned("No subnets available in 172.21.0.0/16 - 172.31.0.0/16"));
        },
    };
    assert(first_free_octet(nv, 21) == Some(x as int));
    let xs = int_to_string(x as i64);
    let id = concat("zenobr", xs.as_str());
    let subnet = concat3("172.", xs.as_str(), ".0.0/16");
    let gateway = concat3("172.", xs.as_str(), ".0.1");
    let net = NetworkConfig {
        id: id.clone(),
        name: owned(name),
        driver: owned("bridge"),
        subnet,
        gateway,
    };
    let ghost before = networks@;
    networks.push(net);
    assert(networks@.subrange(0, before.len() as int) =~= before);
    Ok(id)
}

/// Whether container `c` asked for the network named `name` or with id `id`.
pub open spec fn uses_network(c: ContainerNet, name: Seq<char>, id: Seq<char>) -> bool {
    match opt_text(c.network) {
        Some(n) => n == name || n == id,
        None => false,
    }
}

/// The index of the first running container from `i` on that uses the network.
pub open spec fn blocking_container(cs: Seq<ContainerNet>, name: Seq<char>, id: Seq<char>, i: int) -> Option<
    int,
>
    decreases cs.len() - i,
{
    if i < 0 || i >= cs.len() {
        None
    } else if uses_network(cs[i], name, id) && is_running(cs[i]) {
        Some(i)
    } else {
        blocking_container(cs, name, id, i + 1)
    }
}

/// The index of the network that deleting `name` removes, or why none is
/// removed: no network has that name or id, or a running container uses it.
pub open spec fn deleted_network(nets: Seq<NetworkView>, name: Seq<char>, cs: Seq<ContainerNet>) -> Result<
    int,
    Seq<char>,
> {
    match first_network_named(nets, name, 0) {
        None => Err("Network "@ + name + " not found"@),
        Some(k) => match blocking_container(cs, name, nets[k].id, 0) {
            Some(j) => Err("Network is in use by running container "@ + cs[j].id@),
            None => Ok(k),
        },
    }
}

/// The first running container that uses the network named `name` or with id `id`.
fn find_blocking_container(cs: &Vec<ContainerNet>, name: &str, id: &String) -> (r: Option<usize>)
    ensures
        match blocking_container(cs@, name@, id@, 0) {
            Some(j) => r matches Some(i) && i as int == j,
            None => r is None,
        },
        r matches Some(i) ==> i < cs.len(),
{
    let n = owned(name);
    let running = owned("running");
    let mut i: usize = 0;
    while i < cs.len()
        invariant
            i <= cs.len(),
            n@ == name@,
            running@ == "running"@,
            blocking_container(cs@, name@, id@, 0) == blocking_container(cs@, name@, id@, i as int),
        decreases cs.len() - i,
    {
        let c = &cs[i];
        let uses = match &c.network {
            Some(x) => *x == n || *x == *id,
            None => false,
        };
        if uses && c.status == running {
            return Some(i);
        }
        i += 1;
    }
    None
}

/// Removes the network named `name` (or with id `name`) from `networks` and
/// returns it, unless no network has that name or id, or a running container
/// in `containers` uses it; then `networks` stays as it was.
pub fn delete_bridge_network(networks: &mut Vec<NetworkConfig>, name: &str, containers: &Vec<ContainerNet>) -> (r:
    Result<NetworkConfig, String>)
    ensures
        match deleted_network(network_views(old(networks)@), name@, containers@) {
            Ok(k) => r matches Ok(n) && n@ == old(networks)@[k]@ && final(networks)@ == old(networks)@.remove(k),
            Err(m) => r matches Err(e) && e@ == m && final(networks)@ == old(networks)@,
        },
{
    let ghost nv = network_views(networks@);
    let k = match find_network(networks, name) {
        Some(k) => k,
        None => {
            let a = concat("Network ", name);
            return Err(concat(a.as_str(), " not found"));
        },
    };
    assert(nv[k as int] == networks@[k as int]@);
    match find_blocking_container(containers, name, &networks[k].id) {
        Some(j) => {
            return Err(concat("Network is in use by running container ", containers[j].id.as_str()));
        },
        None => {},
    }
    Ok(networks.remove(k))
}

/// No network from `i` on answers to `name` but the one at index `nets.len()`
/// of `nets.push(e)`, which has the name `name`.
proof fn lemma_pushed_network_found(nets: Seq<NetworkView>, e: NetworkView, name: Seq<char>, i: int)
    requires
        0 <= i <= nets.len(),
        e.name == name,
        forall|k: int| 0 <= k < nets.len() ==> #[trigger] nets[k].name != name && nets[k].id != name,
    ensures
        first_network_named(nets.push(e), name, i) == Some(nets.len() as int),
    decreases nets.len() - i,
{
    if i < nets.len() {
        assert(nets.push(e)[i] == nets[i]);
        assert(nets[i].name != name && nets[i].id != name);
        lemma_pushed_network_found(nets, e, name, i + 1);
    } else {
        assert(nets.push(e)[i] == e);
    }
}

/// No container from `i` on blocks the network.
proof fn lemma_no_blocking(cs: Seq<ContainerNet>, name: Seq<char>, id: Seq<char>, i: int)
    requires
        0 <= i <= cs.len(),
        forall|j: int| 0 <= j < cs.len() ==> !(is_running(#[trigger] cs[j]) && uses_network(cs[j], name, id)),
    ensures
        blocking_container(cs, name, id, i) is None,
    decreases cs.len() - i,
{
    if i < cs.len() {
        lemma_no_blocking(cs, name, id, i + 1);
    }
}

/// Deleting a network that was just created puts the list back as it was,
/// when no other network has the new name as its id and no running container
/// uses the new network.
pub proof fn law_create_then_delete_network(nets: Seq<NetworkView>, name: Seq<char>, cs: Seq<ContainerNet>)
    requires
        created_network(nets, name) is Ok,
        forall|k: int| 0 <= k < nets.len() ==> #[trigger] nets[k].id != name,
        forall|j: int|
            0 <= j < cs.len() ==> !(is_running(#[trigger] cs[j]) && uses_network(
                cs[j],
                name,
                created_network(nets, name)->Ok_0.id,
            )),
    ensures
        deleted_network(nets.push(created_network(nets, name)->Ok_0), name, cs) == Ok::<int, Seq<char>>(
            nets.len() as int,
        ),
        nets.push(created_network(nets, name)->Ok_0).remove(nets.len() as int) == nets,
{
    let e = created_network(nets, name)->Ok_0;
    assert forall|k: int| 0 <= k < nets.len() implies #[trigger] nets[k].name != name && nets[k].id != name by {
        if nets[k].name == name {
            assert(name_taken(nets, name));
        }
    }
    lemma_pushed_network_found(nets, e, name, 0);
    assert(nets.push(e)[nets.len() as int] == e);
    lemma_no_blocking(cs, name, e.id, 0);
    assert(nets.push(e).remove(nets.len() as int) =~= nets);
}

/// The parts of one NAT or filter rule of a bridge: what comes before the
/// operation (`-A`, `-C`, `-D`) and what comes after it.
pub open spec fn bridge_rule(k: int, id: Seq<char>, subnet: Seq<char>) -> (Seq<Seq<char>>, Seq<Seq<char>>) {
    if k == 0 {
        (seq!["-t"@, "nat"@], seq!["POSTROUTING"@, "-s"@, subnet, "!"@, "-o"@, id, "-j"@, "MASQUERADE"@])
    } else if k == 1 {
        (Seq::empty(), seq!["FORWARD"@, "-i"@, id, "-j"@, "ACCEPT"@])
    } else if k == 2 {
        (Seq::empty(), seq!["FORWARD"@, "-o"@, id, "-j"@, "ACCEPT"@])
    } else if k == 3 {
        (seq!["-t"@, "nat"@], seq!["POSTROUTING"@, "-o"@, id, "-s"@, "127.0.0.1"@, "-j"@, "MASQUERADE"@])
    } else {
        (
            seq!["-t"@, "mangle"@],
            seq!["POSTROUTING"@, "-o"@, id, "-p"@, "tcp"@, "-j"@, "CHECKSUM"@, "--fill-checksum"@],
        )
    }
}

/// The iptables arguments of rule `k` of a bridge with operation `op`.
pub open spec fn bridge_rule_args(op: Seq<char>, k: int, id: Seq<char>, subnet: Seq<char>) -> Seq<Seq<char>> {
    bridge_rule(k, id, subnet).0 + seq![op] + bridge_rule(k, id, subnet).1
}

/// The iptables rules that a bridge needs, in the order they are set up: the
/// masquerade of its subnet, forwarding in and out, the masquerade of loopback
/// traffic, and checksum filling.
pub open spec fn bridge_rules(op: Seq<char>, id: Seq<char>, subnet: Seq<char>) -> Seq<Seq<Seq<char>>> {
    Seq::new(5, |k: int| bridge_rule_args(op, k, id, subnet))
}

/// The order in which a bridge's rules are deleted.
pub open spec fn teardown_order() -> Seq<int> {
    seq![0int, 3, 4, 1, 2]
}

/// The rules of a bridge, with `-D`, in the order they are deleted.
pub open spec fn bridge_teardown_rules(id: Seq<char>, subnet: Seq<char>) -> Seq<Seq<Seq<char>>> {
    Seq::new(5, |j: int| bridge_rule_args("-D"@, teardown_order()[j], id, subnet))
}

/// Pushes an owned copy of `s`.
pub(crate) fn push_text(v: &mut Vec<String>, s: &str)
    ensures
        final(v)@.len() == old(v)@.len() + 1,
        views(final(v)@) == views(old(v)@).push(s@),
{
    v.push(owned(s));
    assert(views(v@) =~= views(old(v)@).push(s@));
}

/// The iptables arguments of rule `k` of a bridge.
fn bridge_rule_exec(op: &str, k: usize, id: &str, subnet: &str) -> (r: Vec<String>)
    requires
        k < 5,
    ensures
        views(r@) == bridge_rule_args(op@, k as int, id@, subnet@),
{
    let mut r: Vec<String> = Vec::new();
    if k == 0 || k == 3 {
        push_text(&mut r, "-t");
        push_text(&mut r, "nat");
    } else if k == 4 {
        push_text(&mut r, "-t");
        push_text(&mut r, "mangle");
    }
    push_text(&mut r, op);
    if k == 0 {
        push_text(&mut r, "POSTROUTING");
        push_text(&mut r, "-s");
        push_text(&mut r, subnet);
        push_text(&mut r, "!");
        push_text(&mut r, "-o");
        push_text(&mut r, id);
        push_text(&mut r, "-j");
        push_text(&mut r, "MASQUERADE");
    } else if k == 1 || k == 2 {
        push_text(&mut r, "FORWARD");
        push_text(&mut r, if k == 1 { "-i" } else { "-o" });
        push_text(&mut r, id);
        push_text(&mut r, "-j");
        push_text(&mut r, "ACCEPT");
    } else if k == 3 {
        push_text(&mut r, "POSTROUTING");
        push_text(&mut r, "-o");
        push_text(&mut r, id);
        push_text(&mut r, "-s");
        push_text(&mut r, "127.0.0.1");
        push_text(&mut r, "-j");
        push_text(&mut r, "MASQUERADE");
    } else {
        push_text(&mut r, "POSTROUTING");
        push_text(&mut r, "-o");
        push_text(&mut r, id);
        push_text(&mut r, "-p");
        push_text(&mut r, "tcp");
        push_text(&mut r, "-j");
        push_text(&mut r, "CHECKSUM");
        push_text(&mut r, "--fill-checksum");
    }
    assert(views(r@) =~= bridge_rule_args(op@, k as int, id@, subnet@));
    r
}

/// The iptables rules of a bridge with operation `op` (`-C` to check, `-A` to
/// add), in the order they are set up.
pub fn bridge_rule_commands(op: &str, id: &str, subnet: &str) -> (r: Vec<Vec<String>>)
    ensures
        arg_views(r@) == bridge_rules(op@, id@, subnet@),
{
    let mut r: Vec<Vec<String>> = Vec::new();
    let mut k: usize = 0;
    while k < 5
        invariant
            k <= 5,
            r@.len() == k,
            forall|j: int| 0 <= j < k ==> #[trigger] views(r@[j]@) == bridge_rule_args(op@, j, id@, subnet@),
        decreases 5 - k,
    {
        let a = bridge_rule_exec(op, k, id, subnet);
        r.push(a);
        k += 1;
    }
    assert(arg_views(r@) =~= bridge_rules(op@, id@, subnet@));
    r
}

/// The iptables rules of a bridge with `-D`, in the order a network's removal
/// deletes them.
pub fn bridge_teardown_commands(id: &str, subnet: &str) -> (r: Vec<Vec<String>>)
    ensures
        arg_views(r@) == bridge_teardown_rules(id@, subnet@),
{
    let order: [usize; 5] = [0, 3, 4, 1, 2];
    let mut r: Vec<Vec<String>> = Vec::new();
    let mut j: usize = 0;
    while j < 5
        invariant
            j <= 5,
            r@.len() == j,
            order@ == seq![0usize, 3, 4, 1, 2],
            forall|i: int|
                0 <= i < j ==> #[trigger] views(r@[i]@) == bridge_rule_args(
                    "-D"@,
                    teardown_order()[i],
                    id@,
                    subnet@,
                ),
        decreases 5 - j,
    {
        let a = bridge_rule_exec("-D", order[j], id, subnet);
        r.push(a);
        j += 1;
    }
    assert(arg_views(r@) =~= bridge_teardown_rules(id@, subnet@));
    r
}

/// Removing a bridge deletes exactly the rules that setting it up adds: every
/// rule added with `-A` is deleted with `-D`, once, and nothing else is deleted.
pub proof fn law_bridge_teardown_removes_setup(id: Seq<char>, subnet: Seq<char>)
    ensures
        bridge_teardown_rules(id, subnet).len() == bridge_rules("-A"@, id, subnet).len(),
        forall|k: int|
            #![trigger bridge_rules("-A"@, id, subnet)[k]]
            0 <= k < 5 ==> exists|j: int|
                0 <= j < 5 && #[trigger] bridge_teardown_rules(id, subnet)[j] == bridge_rules("-A"@, id, subnet)[k].update(
                    bridge_rule(k, id, subnet).0.len() as int,
                    "-D"@,
                ),
        forall|j: int|
            0 <= j < 5 ==> 0 <= #[trigger] teardown_order()[j] < 5 && bridge_teardown_rules(id, subnet)[j]
                == bridge_rules("-A"@, id, subnet)[teardown_order()[j]].update(
                bridge_rule(teardown_order()[j], id, subnet).0.len() as int,
                "-D"@,
            ),
{
    let t = bridge_teardown_rules(id, subnet);
    let a = bridge_rules("-A"@, id, subnet);
    assert forall|k: int| 0 <= k < 5 implies #[trigger] bridge_rule_args("-D"@, k, id, subnet) == a[k].update(
        bridge_rule(k, id, subnet).0.len() as int,
        "-D"@,
    ) by {
        assert(bridge_rule_args("-D"@, k, id, subnet) =~= a[k].update(
            bridge_rule(k, id, subnet).0.len() as int,
            "-D"@,
        ));
    }
    assert forall|k: int| #![trigger a[k]] 0 <= k < 5 implies exists|j: int|
        0 <= j < 5 && #[trigger] t[j] == a[k].update(bridge_rule(k, id, subnet).0.len() as int, "-D"@) by {
        let j = if k == 0 {
            0int
        } else if k == 3 {
            1
        } else if k == 4 {
            2
        } else if k == 1 {
            3
        } else {
            4
        };
        assert(teardown_order()[j] == k);
        assert(t[j] == bridge_rule_args("-D"@, k, id, subnet));
    }
    assert forall|j: int| 0 <= j < 5 implies 0 <= #[trigger] teardown_order()[j] < 5 && t[j] == a[teardown_order()[j]].update(
        bridge_rule(teardown_order()[j], id, subnet).0.len() as int,
        "-D"@,
    ) by {
        let k = teardown_order()[j];
        assert(t[j] == bridge_rule_args("-D"@, k, id, subnet));
    }
}

/// The bridge interface commands (`ip` arguments) that bring up a bridge with
/// gateway `gateway`.
pub fn bridge_link_commands(id: &str, gateway: &str) -> (r: Vec<Vec<String>>)
    ensures
        arg_views(r@) == seq![
            seq!["link"@, "add"@, "name"@, id@, "type"@, "bridge"@],
            seq!["addr"@, "add"@, gateway@ + "/16"@, "dev"@, id@],
            seq!["link"@, "set"@, id@, "up"@],
        ],
{
    let mut a: Vec<String> = Vec::new();
    push_text(&mut a, "link");
    push_text(&mut a, "add");
    push_text(&mut a, "name");
    push_text(&mut a, id);
    push_text(&mut a, "type");
    push_text(&mut a, "bridge");
    let mut b: Vec<String> = Vec::new();
    push_text(&mut b, "addr");
    push_text(&mut b, "add");
    let g = concat(gateway, "/16");
    push_text(&mut b, g.as_str());
    push_text(&mut b, "dev");
    push_text(&mut b, id);
    let mut c: Vec<String> = Vec::new();
    push_text(&mut c, "link");
    push_text(&mut c, "set");
    push_text(&mut c, id);
    push_text(&mut c, "up");
    let mut r: Vec<Vec<String>> = Vec::new();
    r.push(a);
    r.push(b);
    r.push(c);
    assert(views(a@) =~= seq!["link"@, "add"@, "name"@, id@, "type"@, "bridge"@]);
    assert(views(b@) =~= seq!["addr"@, "add"@, gateway@ + "/16"@, "dev"@, id@]);
    assert(views(c@) =~= seq!["link"@, "set"@, id@, "up"@]);
    assert(arg_views(r@) =~= seq![views(a@), views(b@), views(c@)]);
    r
}

/// The names of the two ends of a container's virtual ethernet pair, from the
/// hash of its id: `veth-h-` and `veth-g-` followed by the hash's first eight
/// lower-case hexadecimal digits (zero-padded).
pub open spec fn veth_names_of(hash: u64) -> (Seq<char>, Seq<char>) {
    let h = zero_pad(radix_digits(hash as nat, 16), 8);
    let short = if h.len() > 8 {
        h.subrange(0, 8)
    } else {
        h
    };
    ("veth-h-"@ + short, "veth-g-"@ + short)
}

/// The names of a container's virtual ethernet pair.
pub fn veth_names(hash: u64) -> (r: (String, String))
    ensures
        (r.0@, r.1@) == veth_names_of(hash),
{
    let h = hex8_string(hash);
    let v = crate::text::chars_of(h.as_str());
    let short = if v.len() > 8 {
        crate::text::string_of_range(&v, 0, 8)
    } else {
        crate::text::string_of(&v)
    };
    (concat("veth-h-", short.as_str()), concat("veth-g-", short.as_str()))
}

/// What `DefaultHasher::new()` gives for a container id hashed into it.
pub uninterp spec fn default_hash(id: Seq<char>) -> u64;

/// `DefaultHasher` over a container id: the hash that names the container's
/// virtual ethernet pair. The standard library does not specify the algorithm,
/// but every hasher that `DefaultHasher::new` creates is the same, so the hash
/// is a function of the id; nothing more is stated of the value.
#[verifier::external_body]
fn container_id_hash(id: &str) -> (r: u64)
    ensures
        r == default_hash(id@),
{
    let mut hasher = std::collections::hash_map::DefaultHasher::new();
    id.hash(&mut hasher);
    hasher.finish()
}

/// The names of the virtual ethernet pair of the container `container_id`.
pub fn container_veth_names(container_id: &str) -> (r: (String, String))
    ensures
        (r.0@, r.1@) == veth_names_of(default_hash(container_id@)),
{
    let h = container_id_hash(container_id);
    veth_names(h)
}

/// What tearing down a container's network removes: the DNAT rules (with `-D`)
/// of its published ports forwarding to `ip`, and the host end of its virtual
/// ethernet pair.
pub fn clean_container_network(container_id: &str, ip: &str, ports: &Vec<String>) -> (r: (Vec<Vec<String>>, String))
    ensures
        arg_views(r.0@) == port_forward_rules("-D"@, views(ports@), ip@),
        r.1@ == veth_names_of(default_hash(container_id@)).0,
{
    let rules = port_forward_commands("-D", ports, ip);
    let (host, _guest) = container_veth_names(container_id);
    (rules, host)
}

/// Whether a container is listed in the hosts files: it runs and has an address.
pub open spec fn host_listed(c: ContainerNet) -> bool {
    is_running(c) && c.ip is Some
}

/// The network a container asked for, empty when it asked for none.
pub open spec fn net_or_empty(o: Option<String>) -> Seq<char> {
    match o {
        Some(n) => n@,
        None => Seq::empty(),
    }
}

/// The hosts line of a listed container: its address, a tab, its id.
pub open spec fn host_line(c: ContainerNet) -> Seq<char> {
    match c.ip {
        Some(ip) => ip@ + "\t"@ + c.id@ + "\n"@,
        None => Seq::empty(),
    }
}

/// The line of the first listed container from `i` on whose id is `my_id`.
pub open spec fn own_host_line(cs: Seq<ContainerNet>, my_id: Seq<char>, i: int) -> Seq<char>
    decreases cs.len() - i,
{
    if i < 0 || i >= cs.len() {
        Seq::empty()
    } else if host_listed(cs[i]) && cs[i].id@ == my_id {
        host_line(cs[i])
    } else {
        own_host_line(cs, my_id, i + 1)
    }
}

/// The lines of the other listed containers on the network `my_net`, in order.
pub open spec fn peer_lines(cs: Seq<ContainerNet>, my_id: Seq<char>, my_net: Seq<char>) -> Seq<char>
    decreases cs.len(),
{
    if cs.len() == 0 {
        Seq::empty()
    } else {
        let c = cs.last();
        peer_lines(cs.drop_last(), my_id, my_net) + if host_listed(c) && c.id@ != my_id && net_or_empty(
            c.network,
        ) == my_net {
            host_line(c)
        } else {
            Seq::empty()
        }
    }
}

/// The fixed head of every container's hosts file.
pub open spec fn hosts_header() -> Seq<char> {
    "127.0.0.1\tlocalhost\n::1\tlocalhost ip6-localhost ip6-loopback\n\n# Zeno Container Service Discovery\n"@
}

/// The hosts file of the container `my_id` on the network `my_net`: the fixed
/// head, its own line, then a line for each other running container with an
/// address on the same network.
pub open spec fn hosts_file_of(cs: Seq<ContainerNet>, my_id: Seq<char>, my_net: Seq<char>) -> Seq<char> {
    hosts_header() + own_host_line(cs, my_id, 0) + peer_lines(cs, my_id, my_net)
}

/// The hosts line of a container that has an address.
fn host_line_exec(c: &ContainerNet) -> (r: String)
    ensures
        r@ == host_line(*c),
{
    match &c.ip {
        Some(ip) => {
            let a = concat3(ip.as_str(), "\t", c.id.as_str());
            concat(a.as_str(), "\n")
        },
        None => String::new(),
    }
}

/// The line of the first listed container whose id is `my_id`.
fn own_host_line_exec(containers: &Vec<ContainerNet>, my_id: &str) -> (r: String)
    ensures
        r@ == own_host_line(containers@, my_id@, 0),
{
    let me = owned(my_id);
    let running = owned("running");
    let mut i: usize = 0;
    while i < containers.len()
        invariant
            i <= containers.len(),
            me@ == my_id@,
            running@ == "running"@,
            own_host_line(containers@, my_id@, 0) == own_host_line(containers@, my_id@, i as int),
        decreases containers.len() - i,
    {
        let c = &containers[i];
        if c.status == running && c.ip.is_some() && c.id == me {
            return host_line_exec(c);
        }
        i += 1;
    }
    String::new()
}

/// The hosts file of the container `my_id` whose network is `my_network`, from
/// the containers in `containers`.
pub fn hosts_file(containers: &Vec<ContainerNet>, my_id: &str, my_network: &Option<String>) -> (r: String)
    ensures
        r@ == hosts_file_of(containers@, my_id@, net_or_empty(*my_network)),
{
    let ghost cs = containers@;
    let me = owned(my_id);
    let running = owned("running");
    let my_net = match my_network {
        Some(n) => n.clone(),
        None => String::new(),
    };
    let own = own_host_line_exec(containers, my_id);
    let mut peers = String::new();
    let mut k: usize = 0;
    while k < containers.len()
        invariant
            k <= containers.len(),
            me@ == my_id@,
            running@ == "running"@,
            my_net@ == net_or_empty(*my_network),
            peers@ == peer_lines(cs.take(k as int), my_id@, my_net@),
            cs == containers@,
        decreases containers.len() - k,
    {
        let c = &containers[k];
        let c_net = match &c.network {
            Some(n) => n.clone(),
            None => String::new(),
        };
        assert(cs.take(k + 1).drop_last() =~= cs.take(k as int));
        assert(cs.take(k + 1).last() == cs[k as int]);
        if c.status == running && c.ip.is_some() && !(c.id == me) && c_net == my_net {
            let line = host_line_exec(c);
            peers = concat(peers.as_str(), line.as_str());
        } else {
            assert(peers@ + Seq::<char>::empty() =~= peers@);
        }
        k += 1;
    }
    assert(cs.take(containers.len() as int) =~= cs);
    let head = owned(
        "127.0.0.1\tlocalhost\n::1\tlocalhost ip6-localhost ip6-loopback\n\n# Zeno Container Service Discovery\n",
    );
    concat3(head.as_str(), own.as_str(), peers.as_str())
}

/// One command of a plan: the program, its arguments, the text that precedes
/// the error when the program cannot be started, and the error when it fails.
pub struct CommandStep {
    pub program: String,
    pub args: Vec<String>,
    pub spawn_error: String,
    pub failure: String,
}

/// The view of a command step.
pub open spec fn step_view(s: CommandStep) -> (Seq<char>, Seq<Seq<char>>, Seq<char>, Seq<char>) {
    (s.program@, views(s.args@), s.spawn_error@, s.failure@)
}

/// The commands, in order, that attach a container whose process is `pid` to
/// the bridge `bridge` through the pair `host`/`guest`, give it the address
/// `ip` and route it through `gateway`. The first command that fails ends the
/// attachment with its error.
pub open spec fn attach_steps(
    host: Seq<char>,
    guest: Seq<char>,
    bridge: Seq<char>,
    pid: Seq<char>,
    ip: Seq<char>,
    gateway: Seq<char>,
) -> Seq<(Seq<char>, Seq<Seq<char>>, Seq<char>, Seq<char>)> {
    seq![
        (
            "ip"@,
            seq!["link"@, "add"@, host, "type"@, "veth"@, "peer"@, "name"@, guest],
            "Failed to create veth pair: "@,
            "Failed to create veth pair"@,
        ),
        (
            "ip"@,
            seq!["link"@, "set"@, host, "master"@, bridge],
            "Failed to bind host interface to bridge: "@,
            "Failed to bind host interface "@ + host + " to bridge "@ + bridge,
        ),
        (
            "ip"@,
            seq!["link"@, "set"@, host, "up"@],
            "Failed to bring up host interface: "@,
            "Failed to bring up host interface "@ + host,
        ),
        (
            "ip"@,
            seq!["link"@, "set"@, guest, "netns"@, pid],
            "Failed to move guest veth: "@,
            "Failed to move guest interface to container netns"@,
        ),
        (
            "nsenter"@,
            seq!["-t"@, pid, "-n"@, "ip"@, "link"@, "set"@, guest, "name"@, "eth0"@],
            "Failed to rename veth inside namespace: "@,
            "Failed to rename guest interface to eth0 inside container"@,
        ),
        (
            "nsenter"@,
            seq!["-t"@, pid, "-n"@, "ip"@, "addr"@, "add"@, ip + "/16"@, "dev"@, "eth0"@],
            "Failed to configure IP inside namespace: "@,
            "Failed to assign IP address to eth0 inside container"@,
        ),
        (
            "nsenter"@,
            seq!["-t"@, pid, "-n"@, "ip"@, "link"@, "set"@, "eth0"@, "up"@],
            "Failed to bring up link inside namespace: "@,
            "Failed to bring up eth0 inside container"@,
        ),
        (
            "nsenter"@,
            seq!["-t"@, pid, "-n"@, "ip"@, "route"@, "add"@, "default"@, "via"@, gateway],
            "Failed to add gateway route inside namespace: "@,
            "Failed to configure default gateway route inside container"@,
        ),
    ]
}

/// A command step built from text.
fn make_step(program: &str, args: Vec<String>, spawn_error: &str, failure: String) -> (r: CommandStep)
    ensures
        step_view(r) == (program@, views(args@), spawn_error@, failure@),
{
    CommandStep { program: owned(program), args, spawn_error: owned(spawn_error), failure }
}

/// Arguments built from pieces of text.
pub(crate) fn text_args(parts: &[&str]) -> (r: Vec<String>)
    ensures
        views(r@) == parts@.map_values(|p: &str| p@),
{
    let mut r: Vec<String> = Vec::new();
    let mut i: usize = 0;
    while i < parts.len()
        invariant
            i <= parts.len(),
            views(r@) == parts@.map_values(|p: &str| p@).take(i as int),
        decreases parts.len() - i,
    {
        push_text(&mut r, parts[i]);
        assert(parts@.map_values(|p: &str| p@).take(i + 1) =~= parts@.map_values(|p: &str| p@).take(
            i as int,
        ).push(parts@[i as int]@));
        i += 1;
    }
    assert(parts@.map_values(|p: &str| p@).take(parts.len() as int) =~= parts@.map_values(
        |p: &str| p@,
    ));
    r
}

/// The commands that attach a started container to its bridge.
pub fn network_attach_steps(host: &str, guest: &str, bridge: &str, pid: i32, ip: &str, gateway: &str) -> (r: Vec<
    CommandStep,
>)
    ensures
        r@.map_values(|s: CommandStep| step_view(s)) == attach_steps(
            host@,
            guest@,
            bridge@,
            decimal(pid as int),
            ip@,
            gateway@,
        ),
{
    let pid_text = int_to_string(pid as i64);
    let p = pid_text.as_str();
    let ip16 = concat(ip, "/16");
    let mut r: Vec<CommandStep> = Vec::new();
    r.push(
        make_step(
            "ip",
            text_args(&["link", "add", host, "type", "veth", "peer", "name", guest]),
            "Failed to create veth pair: ",
            owned("Failed to create veth pair"),
        ),
    );
    assert(step_view(r@[0]) == attach_steps(host@, guest@, bridge@, decimal(pid as int), ip@, gateway@)[0]);
    let f1 = concat3("Failed to bind host interface ", host, " to bridge ");
    r.push(
        make_step(
            "ip",
            text_args(&["link", "set", host, "master", bridge]),
            "Failed to bind host interface to bridge: ",
            concat(f1.as_str(), bridge),
        ),
    );
    assert(step_view(r@[1]) == attach_steps(host@, guest@, bridge@, decimal(pid as int), ip@, gateway@)[1]);
    r.push(
        make_step(
            "ip",
            text_args(&["link", "set", host, "up"]),
            "Failed to bring up host interface: ",
            concat("Failed to bring up host interface ", host),
        ),
    );
    assert(step_view(r@[2]) == attach_steps(host@, guest@, bridge@, decimal(pid as int), ip@, gateway@)[2]);
    r.push(
        make_step(
            "ip",
            text_args(&["link", "set", guest, "netns", p]),
            "Failed to move guest veth: ",
            owned("Failed to move guest interface to container netns"),
        ),
    );
    assert(step_view(r@[3]) == attach_steps(host@, guest@, bridge@, decimal(pid as int), ip@, gateway@)[3]);
    r.push(
        make_step(
            "nsenter",
            text_args(&["-t", p, "-n", "ip", "link", "set", guest, "name", "eth0"]),
            "Failed to rename veth inside namespace: ",
            owned("Failed to rename guest interface to eth0 inside container"),
        ),
    );
    assert(step_view(r@[4]) == attach_steps(host@, guest@, bridge@, decimal(pid as int), ip@, gateway@)[4]);
    r.push(
        make_step(
            "nsenter",
            text_args(&["-t", p, "-n", "ip", "addr", "add", ip16.as_str(), "dev", "eth0"]),
            "Failed to configure IP inside namespace: ",
            owned("Failed to assign IP address to eth0 inside container"),
        ),
    );
    assert(step_view(r@[5]) == attach_steps(host@, guest@, bridge@, decimal(pid as int), ip@, gateway@)[5]);
    r.push(
        make_step(
            "nsenter",
            text_args(&["-t", p, "-n", "ip", "link", "set", "eth0", "up"]),
            "Failed to bring up link inside namespace: ",
            owned("Failed to bring up eth0 inside container"),
        ),
    );
    assert(step_view(r@[6]) == attach_steps(host@, guest@, bridge@, decimal(pid as int), ip@, gateway@)[6]);
    r.push(
        make_step(
            "nsenter",
            text_args(&["-t", p, "-n", "ip", "route", "add", "default", "via", gateway]),
            "Failed to add gateway route inside namespace: ",
            owned("Failed to configure default gateway route inside container"),
        ),
    );
    assert(step_view(r@[7]) == attach_steps(host@, guest@, bridge@, decimal(pid as int), ip@, gateway@)[7]);
    assert(r@.map_values(|s: CommandStep| step_view(s)) =~= attach_steps(
        host@,
        guest@,
        bridge@,
        decimal(pid as int),
        ip@,
        gateway@,
    ));
    r
}

} // verus!
