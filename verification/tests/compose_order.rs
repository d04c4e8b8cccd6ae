use zenopanel::compose::{ComposeFile, YamlNode};
use zenopanel::compose_plan::{compose_down_targets, compose_project_name, env_file_path, load_env_file, merge_env_files};
use zenopanel::image::{image_cache_dir_name, image_name_from_cache_dir};
use zenopanel::memory::{checked_create_memory_bytes, checked_parse_memory_bytes, create_memory_bytes};
use zenopanel::order::order_services;

fn json_text(v: &serde_yaml::Value) -> String {
    serde_json::to_string(v).unwrap_or_default()
}

fn to_node(v: &serde_yaml::Value) -> YamlNode {
    match v {
        serde_yaml::Value::Null => YamlNode::Null,
        serde_yaml::Value::Bool(b) => YamlNode::Bool(*b),
        serde_yaml::Value::Number(n) => YamlNode::Number(n.to_string()),
        serde_yaml::Value::String(s) => YamlNode::Str(s.clone()),
        serde_yaml::Value::Sequence(items) => YamlNode::List(items.iter().map(to_node).collect(), json_text(v)),
        serde_yaml::Value::Mapping(m) => {
            YamlNode::Mapping(m.iter().map(|(k, x)| (to_node(k), to_node(x))).collect(), json_text(v))
        },
        serde_yaml::Value::Tagged(t) => to_node(&t.value),
    }
}

fn parse(text: &str) -> ComposeFile {
    let value: serde_yaml::Value = serde_yaml::from_str(text).unwrap();
    ComposeFile::deserialize(&to_node(&value)).unwrap()
}

#[test]
fn order_lists_each_service_once_dependencies_first() {
    let cf = parse(
        "services:\n  web:\n    image: a\n    depends_on: [api, cache]\n  api:\n    image: b\n    depends_on: [db]\n  cache:\n    image: c\n  db:\n    image: d\n",
    );
    let order = order_services(&cf.services);
    assert_eq!(order.len(), 4);
    let pos = |n: &str| order.iter().position(|x| x == n).unwrap();
    assert!(pos("db") < pos("api"));
    assert!(pos("api") < pos("web"));
    assert!(pos("cache") < pos("web"));
    for name in ["web", "api", "cache", "db"] {
        assert_eq!(order.iter().filter(|x| x.as_str() == name).count(), 1);
    }
}

#[test]
fn order_ignores_unknown_dependencies() {
    let cf = parse("services:\n  web:\n    image: a\n    depends_on: [ghost]\n");
    assert_eq!(order_services(&cf.services), vec!["web".to_string()]);
}

#[test]
fn down_targets_reverse_the_start_order() {
    let cf = parse("services:\n  web:\n    image: a\n    depends_on: [db]\n  db:\n    image: d\n    container_name: main-db\n");
    assert_eq!(compose_down_targets(&cf.services), vec!["web".to_string(), "main-db".to_string()]);
}

#[test]
fn compose_paths() {
    assert_eq!(compose_project_name("/srv/app/docker-compose.yml"), "app");
    assert_eq!(compose_project_name("docker-compose.yml"), "default");
    assert_eq!(env_file_path("/srv/app/docker-compose.yml", ".env"), "/srv/app/.env");
}

#[test]
fn env_files_fill_missing_keys() {
    let mut loaded: Vec<(String, String)> = Vec::new();
    load_env_file("# comment\nA=first\nA=override\nB=\"two\"\n\nC='three'\nbad line\n", &mut loaded);
    assert_eq!(
        loaded,
        vec![
            ("A".to_string(), "override".to_string()),
            ("B".to_string(), "two".to_string()),
            ("C".to_string(), "three".to_string()),
        ]
    );
    let mut env: Vec<(String, String)> = vec![("A".to_string(), "keep".to_string())];
    merge_env_files(&mut env, &loaded);
    let get = |k: &str| env.iter().find(|(n, _)| n == k).map(|(_, v)| v.clone());
    assert_eq!(get("A"), Some("keep".to_string()));
    assert_eq!(get("B"), Some("two".to_string()));
    assert_eq!(get("C"), Some("three".to_string()));
}

#[test]
fn cached_image_names_round_trip() {
    let dir = image_cache_dir_name("library/nginx", "1.25");
    assert_eq!(dir, "library_nginx_1.25");
    assert_eq!(image_name_from_cache_dir(&dir), Some("library/nginx:1.25".to_string()));
    assert_eq!(image_name_from_cache_dir("plain"), None);
}

#[test]
fn memory_limits() {
    assert_eq!(create_memory_bytes("512m"), 512 * 1024 * 1024);
    assert_eq!(create_memory_bytes("2G"), 2 * 1024 * 1024 * 1024);
    assert_eq!(create_memory_bytes("1000"), 1000);
    assert_eq!(create_memory_bytes(""), 0);
    assert_eq!(create_memory_bytes("x"), 0);
    assert_eq!(checked_create_memory_bytes("99999999999999g"), None);
    assert_eq!(checked_parse_memory_bytes("256K"), Some(256 * 1024));
    assert_eq!(checked_parse_memory_bytes("9999999999999999999"), Some(0));
}

fn try_parse(text: &str) -> Result<ComposeFile, String> {
    let value: serde_yaml::Value = serde_yaml::from_str(text).unwrap();
    ComposeFile::deserialize(&to_node(&value))
}

fn parse_error(text: &str) -> String {
    match try_parse(text) {
        Ok(_) => String::new(),
        Err(e) => e,
    }
}

#[test]
fn health_checks_and_cpus_must_have_their_shape() {
    let ok = try_parse(
        "services:\n  web:\n    image: a\n    cpus: 1.5\n    healthcheck:\n      test: [\"CMD\", \"true\"]\n      interval: 30s\n      retries: 3\n",
    );
    assert!(ok.is_ok());
    assert!(try_parse("services:\n  web:\n    image: a\n    cpus: 2\n").is_ok());
    let bad_cpus = parse_error("services:\n  web:\n    image: a\n    cpus: lots\n");
    assert!(bad_cpus.contains("cpus: invalid type, expected f64"));
    let no_test = parse_error("services:\n  web:\n    image: a\n    healthcheck:\n      interval: 30s\n");
    assert!(no_test.contains("healthcheck"));
    let bad_retries = try_parse("services:\n  web:\n    image: a\n    healthcheck:\n      test: x\n      retries: many\n");
    assert!(bad_retries.is_err());
    let not_a_map = try_parse("services:\n  web:\n    image: a\n    healthcheck: yes\n");
    assert!(not_a_map.is_err());
}

#[test]
fn null_scalars_read_as_null_text() {
    let cf = parse(
        "services:\n  web:\n    image: a\n    command: [echo, null]\n    volumes: [null]\n    extra_hosts:\n      h: null\n    environment:\n      null: x\n",
    );
    let web = &cf.services[0].1;
    assert_eq!(web.command.as_ref().unwrap().0, vec!["echo".to_string(), "null".to_string()]);
    assert_eq!(web.volumes.as_ref().unwrap(), &vec!["null".to_string()]);
    assert_eq!(web.extra_hosts.as_ref().unwrap().0, vec!["h:null".to_string()]);
    assert_eq!(web.environment.as_ref().unwrap().0, vec![("null".to_string(), "x".to_string())]);
    let listed = parse("services:\n  web:\n    image: a\n    environment: [null, A=1]\n");
    assert_eq!(listed.services[0].1.environment.as_ref().unwrap().0, vec![("A".to_string(), "1".to_string())]);
    assert!(parse("services:\n  web:\n    image: ~\n").services[0].1.image.is_none());
}

#[test]
fn services_without_dependencies_start_in_name_order() {
    let cf = parse("services:\n  web:\n    image: a\n  api:\n    image: b\n  cache:\n    image: c\n");
    assert_eq!(order_services(&cf.services), vec!["api".to_string(), "cache".to_string(), "web".to_string()]);
}
