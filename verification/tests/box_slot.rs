use zenopanel::compose::{ComposeFile, YamlNode};
use zenopanel::image::{parse_image_ref, parse_www_authenticate};
use zenopanel::memory::parse_memory_bytes;
use zenopanel::order::order_services;
use zenopanel::ports::parse_port_rule;

fn json_text(v: &serde_yaml::Value) -> String {
    serde_json::to_string(v).unwrap_or_default()
}

fn to_node(v: &serde_yaml::Value) -> YamlNode {
    match v {
        serde_yaml::Value::Null => YamlNode::Null,
        serde_yaml::Value::Bool(b) => YamlNode::Bool(*b),
        serde_yaml::Value::Number(n) => YamlNode::Number(n.to_string()),
        serde_yaml::Value::String(s) => YamlNode::Str(s.clone()),
        serde_yaml::Value::Sequence(items) => {
            YamlNode::List(items.iter().map(to_node).collect(), json_text(v))
        }
        serde_yaml::Value::Mapping(m) => YamlNode::Mapping(
            m.iter().map(|(k, x)| (to_node(k), to_node(x))).collect(),
            json_text(v),
        ),
        serde_yaml::Value::Tagged(t) => to_node(&t.value),
    }
}

fn parse_compose(text: &str) -> Result<ComposeFile, String> {
    let value: serde_yaml::Value = serde_yaml::from_str(text).map_err(|e| e.to_string())?;
    ComposeFile::deserialize(&to_node(&value))
}

#[test]
fn test_parse_memory_bytes() {
    assert_eq!(parse_memory_bytes("512m"), 512 * 1024 * 1024);
    assert_eq!(parse_memory_bytes("1g"), 1 * 1024 * 1024 * 1024);
    assert_eq!(parse_memory_bytes("256k"), 256 * 1024);
    assert_eq!(parse_memory_bytes("1024b"), 1024);
    assert_eq!(parse_memory_bytes("50"), 50);
    assert_eq!(parse_memory_bytes(""), 0);
    assert_eq!(parse_memory_bytes("invalid"), 0);
}

#[test]
fn test_yaml_deserialization_and_order() {
    let yaml_content = r#"
version: '3.8'
services:
  web:
    image: nginx:latest
    depends_on:
      - app
  app:
    image: my-node-app:latest
    depends_on:
      - db
  db:
    image: postgres:latest
"#;
    let cf = parse_compose(yaml_content).expect("Failed to parse mock YAML");
    let names: Vec<&str> = cf.services.iter().map(|(n, _)| n.as_str()).collect();
    assert!(names.contains(&"web"));
    assert!(names.contains(&"app"));
    assert!(names.contains(&"db"));

    let ordered = order_services(&cf.services);
    assert_eq!(ordered.len(), 3);
    assert_eq!(ordered[0], "db");
    assert_eq!(ordered[1], "app");
    assert_eq!(ordered[2], "web");
}

#[test]
fn test_parse_port_rule() {
    let r1 = parse_port_rule("80").unwrap();
    assert_eq!(r1.host_ip, None);
    assert_eq!(r1.host_port, "80");
    assert_eq!(r1.container_port, "80");
    assert_eq!(r1.protocol, "tcp");

    let r2 = parse_port_rule("8080:80").unwrap();
    assert_eq!(r2.host_ip, None);
    assert_eq!(r2.host_port, "8080");
    assert_eq!(r2.container_port, "80");
    assert_eq!(r2.protocol, "tcp");

    let r3 = parse_port_rule("127.0.0.1:8080:80").unwrap();
    assert_eq!(r3.host_ip, Some("127.0.0.1".to_string()));
    assert_eq!(r3.host_port, "8080");
    assert_eq!(r3.container_port, "80");
    assert_eq!(r3.protocol, "tcp");

    let r4 = parse_port_rule("127.0.0.1:8080:80/udp").unwrap();
    assert_eq!(r4.host_ip, Some("127.0.0.1".to_string()));
    assert_eq!(r4.host_port, "8080");
    assert_eq!(r4.container_port, "80");
    assert_eq!(r4.protocol, "udp");

    let r5 = parse_port_rule("80-82:80-82").unwrap();
    assert_eq!(r5.host_ip, None);
    assert_eq!(r5.host_port, "80-82");
    assert_eq!(r5.container_port, "80-82");
    assert_eq!(r5.protocol, "tcp");
}

#[test]
fn test_compose_yaml_deserialization_advanced() {
    let yaml_content = r#"
version: '3.8'
services:
  web:
    image: nginx:latest
    entrypoint: /usr/bin/nginx
    command: ["-g", "daemon off;"]
    ports:
      - 80
      - "8080:80"
      - target: 9000
        published: 9001
        host_ip: 127.0.0.1
        protocol: udp
    environment:
      DEBUG: true
      PORT: 8080
      DB_HOST: "postgres"
    env_file:
      - .env
    extra_hosts:
      somehost: "10.0.0.1"
      otherhost: "10.0.0.2"
volumes:
  db_data: {}
"#;
    let cf = parse_compose(yaml_content).expect("Failed to parse advanced mock YAML");
    let web = &cf.services.iter().find(|(n, _)| n == "web").unwrap().1;

    assert_eq!(web.entrypoint.as_ref().unwrap().0, vec!["/usr/bin/nginx".to_string()]);
    assert_eq!(web.command.as_ref().unwrap().0, vec!["-g".to_string(), "daemon off;".to_string()]);

    let ports = &web.ports.as_ref().unwrap().0;
    assert_eq!(ports.len(), 3);
    assert_eq!(ports[0], "80");
    assert_eq!(ports[1], "8080:80");
    assert_eq!(ports[2], "127.0.0.1:9001:9000/udp");

    let env = web.environment.as_ref().unwrap();
    assert_eq!(env.get("DEBUG").unwrap(), "true");
    assert_eq!(env.get("PORT").unwrap(), "8080");
    assert_eq!(env.get("DB_HOST").unwrap(), "postgres");

    let env_file = web.env_file.as_ref().unwrap();
    assert_eq!(env_file[0], ".env");

    let extra_hosts = &web.extra_hosts.as_ref().unwrap().0;
    assert!(extra_hosts.contains(&"somehost:10.0.0.1".to_string()));
    assert!(extra_hosts.contains(&"otherhost:10.0.0.2".to_string()));

    assert!(cf.volumes.as_ref().unwrap().contains(&"db_data".to_string()));
}

#[test]
fn test_parse_www_authenticate() {
    let header = r#"Bearer realm="https://ghcr.io/token",service="ghcr.io",scope="repository:user/repo:pull""#;
    let parsed = parse_www_authenticate(header);
    assert_eq!(
        parsed,
        Some((
            "https://ghcr.io/token".to_string(),
            "ghcr.io".to_string(),
            "repository:user/repo:pull".to_string()
        ))
    );
}

#[test]
fn parse_image_ref_defaults_to_docker_hub() {
    let r = parse_image_ref("nginx");
    assert_eq!(r.registry, "https://registry-1.docker.io");
    assert_eq!(r.repository, "library/nginx");
    assert_eq!(r.tag, "latest");
}

#[test]
fn port_rules_refused_for_empty_text_or_three_colons() {
    assert!(parse_port_rule("").is_none());
    assert!(parse_port_rule("/tcp").is_none());
    assert!(parse_port_rule("1:2:3:4").is_none());
    assert!(parse_port_rule("1:2:3").is_some());
    assert!(parse_port_rule(":").is_some());
}

#[test]
fn blank_memory_limits_are_zero() {
    assert_eq!(parse_memory_bytes("   "), 0);
    assert_eq!(parse_memory_bytes(" 512MB "), 536870912);
    assert_eq!(parse_memory_bytes("1.5g"), 0);
    assert_eq!(parse_memory_bytes("-2k"), -2048);
}

#[test]
fn port_rules_rebuild_their_text() {
    for text in ["127.0.0.1:8080:80/udp", "8080:80", "80/tcp", "80-82:80-82"] {
        let clean = text.trim_end_matches("/udp").trim_end_matches("/tcp");
        let r = parse_port_rule(text).unwrap();
        let rebuilt = match &r.host_ip {
            Some(h) => format!("{}:{}:{}", h, r.host_port, r.container_port),
            None if clean.contains(':') => format!("{}:{}", r.host_port, r.container_port),
            None => r.host_port.clone(),
        };
        assert_eq!(rebuilt, clean);
    }
}
