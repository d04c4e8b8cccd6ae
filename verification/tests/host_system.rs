use zenopanel::firewall::{firewall_rule_add, lockdown_commands, lockdown_ports, parse_firewall_line};
use zenopanel::host::{
    format_uptime, get_distro, get_init_system, get_service_status, is_active_output, kill_target,
    install_plan, latest_version_from, parse_lsof_output, port_check_args, service_hints, tail_lines,
    uninstall_plan, valid_service_action,
};

#[test]
fn uptime_formats() {
    assert_eq!(format_uptime(0), "0 mins");
    assert_eq!(format_uptime(59), "0 mins");
    assert_eq!(format_uptime(3_660), "1 hours, 1 mins");
    assert_eq!(format_uptime(2 * 86_400 + 3 * 3_600 + 4 * 60 + 5), "2 days, 3 hours, 4 mins");
    assert_eq!(format_uptime(86_400), "1 days, 0 hours, 0 mins");
}

#[test]
fn init_systems() {
    assert_eq!(get_init_system(true, true, true, true), "systemd");
    assert_eq!(get_init_system(false, false, true, true), "openrc");
    assert_eq!(get_init_system(false, false, false, true), "sysvinit");
    assert_eq!(get_init_system(false, false, false, false), "unknown");
}

#[test]
fn distro_names() {
    assert_eq!(get_distro("NAME=\"Debian\"\nPRETTY_NAME=\"Debian GNU/Linux 12\"\n"), "Debian");
    assert_eq!(get_distro("PRETTY_NAME=\"Ubuntu 24.04 LTS\"\nNAME=\"Ubuntu\""), "Ubuntu 24.04 LTS");
    assert_eq!(get_distro(""), "Linux");
}

#[test]
fn service_status() {
    assert_eq!(get_service_status(false, true), "not_installed");
    assert_eq!(get_service_status(true, true), "active");
    assert_eq!(get_service_status(true, false), "inactive");
    assert!(is_active_output(" active\n"));
    assert!(!is_active_output("inactive"));
    assert!(valid_service_action("reload"));
    assert!(!valid_service_action("mask"));
}

#[test]
fn lsof_and_port_checks() {
    let (in_use, pid, name) = parse_lsof_output("p1234\ncnginx\n");
    assert!(in_use);
    assert_eq!(pid, Some(1234));
    assert_eq!(name, Some("nginx".to_string()));
    let (in_use, pid, name) = parse_lsof_output("");
    assert!(!in_use);
    assert_eq!(pid, None);
    assert_eq!(name, None);
    assert_eq!(port_check_args(8080), Ok(vec!["-i", ":8080", "-s", "tcp:listen", "-F", "pc"].iter().map(|s| s.to_string()).collect()));
    assert_eq!(port_check_args(0), Err("system.port_check: invalid port number".to_string()));
    assert_eq!(port_check_args(65536), Err("system.port_check: invalid port number".to_string()));
    assert_eq!(kill_target(42), Ok(42));
    assert_eq!(kill_target(0), Err("system.kill: invalid pid".to_string()));
}

#[test]
fn log_tails_and_versions() {
    assert_eq!(tail_lines("a\nb\nc\n", 2), vec!["b", "c"]);
    assert_eq!(tail_lines("a\nb", 5), vec!["a", "b"]);
    assert_eq!(latest_version_from("[package]\nname = \"zenopanel\"\n  version = \"1.4.2\"\n"), Some("1.4.2".to_string()));
    assert_eq!(latest_version_from("[package]\n"), None);
}

#[test]
fn firewall_rules() {
    let r = parse_firewall_line("-A INPUT -p tcp -m tcp --dport 8080 -j ACCEPT -m comment --comment \"ZenoPanel: Web\"").unwrap();
    assert_eq!(r.name, "Web");
    assert_eq!(r.port, "8080");
    assert_eq!(r.protocol, "tcp");
    assert_eq!(r.action, "ACCEPT");
    assert!(parse_firewall_line("-A INPUT -p tcp --dport 22 -j ACCEPT").is_none());
    assert_eq!(
        firewall_rule_add("ssh", "22", "tcp", "drop"),
        Err("Lockout Protection: Memblokir port SSH (22) atau port manajemen ZenoPanel tidak diijinkan.".to_string())
    );
    let (check, add) = firewall_rule_add("web", "8080", "tcp", "accept").unwrap();
    assert_eq!(check[0], "-C");
    assert_eq!(add[0], "-A");
    assert_eq!(add[7], "ACCEPT");
    assert_eq!(add[11], "ZenoPanel: web");
}

#[test]
fn lockdown_lift_mirrors_impose() {
    let ports = lockdown_ports(" 22, 443 ,,3002");
    assert_eq!(ports, vec!["22", "443", "3002"]);
    let add = lockdown_commands("-A", &ports);
    let del = lockdown_commands("-D", &ports);
    assert_eq!(add.len(), 5);
    assert_eq!(add.len(), del.len());
    for (a, d) in add.iter().zip(del.iter()) {
        assert_eq!(a[0], "-A");
        assert_eq!(d[0], "-D");
        assert_eq!(a[1..], d[1..]);
    }
    assert_eq!(add[2].last().unwrap(), "ZenoPanel: Allow SSH (Port 22)");
    assert_eq!(add[4].last().unwrap(), "ZenoPanel: Allow ZenoPanel (Port 3002)");
}

fn words(cmds: &[Vec<String>]) -> Vec<String> {
    cmds.iter().map(|c| c.join(" ")).collect()
}

#[test]
fn service_install_plans() {
    let (path, cmds) = install_plan("systemd").unwrap();
    assert_eq!(path, "/etc/systemd/system/zenopanel.service");
    assert_eq!(
        words(&cmds),
        vec!["systemctl daemon-reload", "systemctl enable zenopanel.service", "systemctl start zenopanel.service"]
    );
    let (path, cmds) = install_plan("openrc").unwrap();
    assert_eq!(path, "/etc/init.d/zenopanel");
    assert_eq!(
        words(&cmds),
        vec!["chmod +x /etc/init.d/zenopanel", "update-rc.d zenopanel defaults", "service zenopanel start"]
    );
    assert!(install_plan("sysvinit").is_some());
    assert!(install_plan("unknown").is_none());
}

#[test]
fn service_uninstall_plans() {
    let (before, path, after) = uninstall_plan("systemd").unwrap();
    assert_eq!(words(&before), vec!["systemctl stop zenopanel.service", "systemctl disable zenopanel.service"]);
    assert_eq!(path, "/etc/systemd/system/zenopanel.service");
    assert_eq!(words(&after), vec!["systemctl daemon-reload"]);
    let (before, path, after) = uninstall_plan("sysvinit").unwrap();
    assert_eq!(words(&before), vec!["service zenopanel stop", "update-rc.d -f zenopanel remove"]);
    assert_eq!(path, "/etc/init.d/zenopanel");
    assert!(after.is_empty());
    assert!(uninstall_plan("unknown").is_none());
}

#[test]
fn service_hint_commands() {
    let (install, uninstall) = service_hints("systemd");
    assert!(install.starts_with("sudo systemctl daemon-reload"));
    assert!(uninstall.ends_with("sudo systemctl daemon-reload"));
    let (install, uninstall) = service_hints("openrc");
    assert_eq!(install, "sudo chmod +x /etc/init.d/zenopanel && sudo update-rc.d zenopanel defaults && sudo service zenopanel start");
    assert_eq!(uninstall, "sudo service zenopanel stop && sudo update-rc.d -f zenopanel remove && sudo rm /etc/init.d/zenopanel");
}
