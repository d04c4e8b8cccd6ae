use zenopanel::cli::{
    cmd_arg_words, container_create_args, container_logs_args, direct_value, list_arg_values, tool_invocation,
    tool_rootfs_path, uses_image_command, ArgValue,
};

#[test]
fn create_args_in_order() {
    let args = container_create_args(
        "web",
        "nginx",
        "nginx -g daemon",
        &vec!["80:80".to_string(), "443:443".to_string()],
        &vec!["/data:/data".to_string()],
        &vec![("A".to_string(), "1".to_string())],
        true,
    )
    .unwrap();
    assert_eq!(
        args,
        vec![
            "create", "web", "--image", "nginx", "--cmd", "nginx -g daemon", "--port", "80:80", "--port", "443:443",
            "--volume", "/data:/data", "--env", "A=1", "--host-net",
        ]
    );
    let bare = container_create_args("db", "postgres", "", &vec![], &vec![], &vec![], false).unwrap();
    assert_eq!(bare, vec!["create", "db", "--image", "postgres"]);
}

#[test]
fn create_args_need_name_and_image() {
    let e = container_create_args("", "nginx", "", &vec![], &vec![], &vec![], false);
    assert_eq!(e, Err("name and image are required".to_string()));
    let e = container_create_args("web", "", "", &vec![], &vec![], &vec![], false);
    assert_eq!(e, Err("name and image are required".to_string()));
}

#[test]
fn logs_and_invocation() {
    assert_eq!(container_logs_args("web", 50), vec!["logs", "web", "--tail", "50"]);
    assert_eq!(container_logs_args("web", 0), vec!["logs", "web"]);
    assert_eq!(container_logs_args("web", -3), vec!["logs", "web"]);
    let inv = tool_invocation("/var/lib/zeno-container", &vec!["ps".to_string(), "--json".to_string()]);
    assert_eq!(inv, vec!["--data-dir", "/var/lib/zeno-container", "ps", "--json"]);
    assert_eq!(tool_rootfs_path("/d", "web"), "/d/containers/web/bundle/rootfs");
}

#[test]
fn direct_values() {
    assert_eq!(direct_value("nginx:alpine"), Some("nginx:alpine".to_string()));
    assert_eq!(direct_value("$image"), None);
    assert_eq!(direct_value(""), None);
}

#[test]
fn box_create_arguments() {
    assert_eq!(list_arg_values(&ArgValue::Text("80:80".to_string())), vec!["80:80"]);
    assert!(list_arg_values(&ArgValue::Text(String::new())).is_empty());
    assert_eq!(
        list_arg_values(&ArgValue::List(vec!["a".to_string(), "b".to_string()])),
        vec!["a", "b"]
    );
    assert_eq!(cmd_arg_words(&ArgValue::Text("  sleep   10 ".to_string())), vec!["sleep", "10"]);
    assert_eq!(cmd_arg_words(&ArgValue::List(vec!["sh -c".to_string()])), vec!["sh -c"]);
    assert!(uses_image_command(false, &vec!["x".to_string()]));
    assert!(uses_image_command(true, &vec![]));
    assert!(!uses_image_command(true, &vec!["x".to_string()]));
}
