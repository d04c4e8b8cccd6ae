use zenopanel::network::{
    bridge_rule_commands, bridge_teardown_commands, clean_container_network, container_veth_names,
    create_bridge_network, delete_bridge_network, find_available_ip, hosts_file, veth_names, ContainerNet,
    NetworkConfig,
};
use zenopanel::ports::port_forward_commands;

fn container(id: &str, status: &str, ip: Option<&str>, net: Option<&str>) -> ContainerNet {
    ContainerNet {
        id: id.to_string(),
        status: status.to_string(),
        ip: ip.map(|s| s.to_string()),
        network: net.map(|s| s.to_string()),
    }
}

#[test]
fn create_then_delete_network() {
    let mut nets: Vec<NetworkConfig> = Vec::new();
    let id = create_bridge_network(&mut nets, "backend").unwrap();
    assert_eq!(id, "zenobr21");
    assert_eq!(nets.len(), 1);
    assert_eq!(nets[0].subnet, "172.21.0.0/16");
    assert_eq!(nets[0].gateway, "172.21.0.1");
    assert_eq!(nets[0].driver, "bridge");
    let id2 = create_bridge_network(&mut nets, "frontend").unwrap();
    assert_eq!(id2, "zenobr22");
    assert_eq!(create_bridge_network(&mut nets, "backend"), Err("Network backend already exists".to_string()));
    assert_eq!(create_bridge_network(&mut nets, "bridge"), Err("Network name bridge is reserved".to_string()));
    let removed = delete_bridge_network(&mut nets, "backend", &vec![]).unwrap();
    assert_eq!(removed.id, "zenobr21");
    assert_eq!(nets.len(), 1);
    assert_eq!(nets[0].name, "frontend");
    let again = create_bridge_network(&mut nets, "backend").unwrap();
    assert_eq!(again, "zenobr21");
}

#[test]
fn networks_in_use_are_kept() {
    let mut nets: Vec<NetworkConfig> = Vec::new();
    create_bridge_network(&mut nets, "backend").unwrap();
    let cs = vec![container("db", "running", Some("172.21.0.2"), Some("backend"))];
    assert_eq!(
        delete_bridge_network(&mut nets, "backend", &cs).err(),
        Some("Network is in use by running container db".to_string())
    );
    assert_eq!(nets.len(), 1);
    let stopped = vec![container("db", "stopped", Some("172.21.0.2"), Some("backend"))];
    assert!(delete_bridge_network(&mut nets, "zenobr21", &stopped).is_ok());
    assert_eq!(delete_bridge_network(&mut nets, "x", &vec![]).err(), Some("Network x not found".to_string()));
}

#[test]
fn subnets_run_out() {
    let mut nets: Vec<NetworkConfig> = Vec::new();
    for i in 0..11 {
        create_bridge_network(&mut nets, &format!("n{}", i)).unwrap();
    }
    assert_eq!(
        create_bridge_network(&mut nets, "n11"),
        Err("No subnets available in 172.21.0.0/16 - 172.31.0.0/16".to_string())
    );
}

#[test]
fn available_addresses() {
    let cs = vec![
        container("a", "running", Some("172.21.0.2"), None),
        container("b", "stopped", Some("172.21.0.3"), None),
    ];
    assert_eq!(find_available_ip("172.21.0.0/16", "172.21.0.1", &cs), Ok("172.21.0.3".to_string()));
    assert_eq!(find_available_ip("bad", "x", &cs), Err("Invalid subnet: bad".to_string()));
    assert_eq!(
        find_available_ip("172.x.0.0", "x", &cs),
        Err("Invalid subnet number: invalid digit found in string".to_string())
    );
}

#[test]
fn bridge_teardown_removes_setup() {
    let setup = bridge_rule_commands("-A", "zenobr21", "172.21.0.0/16");
    let teardown = bridge_teardown_commands("zenobr21", "172.21.0.0/16");
    assert_eq!(setup.len(), 5);
    assert_eq!(teardown.len(), 5);
    for t in &teardown {
        let mut as_added = t.clone();
        let pos = as_added.iter().position(|a| a == "-D").unwrap();
        as_added[pos] = "-A".to_string();
        assert!(setup.contains(&as_added));
    }
}

#[test]
fn container_network_cleanup() {
    let ports = vec!["8080:80".to_string(), "bad:port:spec:x".to_string()];
    let (rules, veth) = clean_container_network("web", "172.21.0.5", &ports);
    let added = port_forward_commands("-A", &ports, "172.21.0.5");
    assert_eq!(rules.len(), added.len());
    assert_eq!(rules[0][2], "-D");
    assert_eq!(rules[0][rules[0].len() - 1], "172.21.0.5:80");
    assert!(veth.starts_with("veth-h-"));
    let (h, g) = container_veth_names("web");
    assert_eq!(veth, h);
    assert!(g.starts_with("veth-g-"));
    assert_eq!(veth_names(0x1234), ("veth-h-00001234".to_string(), "veth-g-00001234".to_string()));
}

#[test]
fn hosts_files_list_peers_on_the_network() {
    let cs = vec![
        container("web", "running", Some("172.21.0.2"), Some("app")),
        container("db", "running", Some("172.21.0.3"), Some("app")),
        container("cache", "running", Some("172.22.0.2"), Some("other")),
        container("old", "stopped", Some("172.21.0.4"), Some("app")),
    ];
    let h = hosts_file(&cs, "web", &Some("app".to_string()));
    assert_eq!(
        h,
        "127.0.0.1\tlocalhost\n::1\tlocalhost ip6-localhost ip6-loopback\n\n# Zeno Container Service Discovery\n172.21.0.2\tweb\n172.21.0.3\tdb\n"
    );
}

#[test]
fn veth_names_follow_the_default_hash_of_the_id() {
    let mut hasher = std::collections::hash_map::DefaultHasher::new();
    std::hash::Hash::hash("web", &mut hasher);
    assert_eq!(container_veth_names("web"), veth_names(std::hash::Hasher::finish(&hasher)));
    assert_eq!(container_veth_names("web"), container_veth_names("web"));
    assert_ne!(container_veth_names("web"), container_veth_names("db"));
}
