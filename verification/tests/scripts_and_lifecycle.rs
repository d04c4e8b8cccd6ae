use zenopanel::lifecycle::{container_start_check, container_stop, runtime_pid, ContainerRecord};
use zenopanel::script::{classify_expression, parse_condition, CompareOp, Condition, Conjunction, Expr, Leaf};

fn record(status: &str) -> ContainerRecord {
    ContainerRecord {
        id: "web".to_string(),
        status: status.to_string(),
        pid: 77,
        desired_status: None,
        exit_code: None,
        ip: Some("172.21.0.2".to_string()),
        ports: Some(vec!["8080:80".to_string()]),
    }
}

#[test]
fn string_comparison_conditions() {
    match parse_condition("\"$driver == 'mysql'\"") {
        Some(Condition::Single(Conjunction::Single(Leaf::Compare { op, left, right }))) => {
            assert!(matches!(op, CompareOp::Eq));
            assert_eq!(left, "$driver");
            assert_eq!(right, "'mysql'");
        },
        _ => panic!("expected a single comparison"),
    }
    match parse_condition("$a > 1 && $b || $c != 'x'") {
        Some(Condition::Any(parts)) => {
            assert_eq!(parts.len(), 2);
            assert!(matches!(&parts[0], Conjunction::All(leaves) if leaves.len() == 2));
            assert!(matches!(&parts[1], Conjunction::Single(Leaf::Compare { op: CompareOp::Ne, .. })));
        },
        _ => panic!("expected a disjunction"),
    }
    assert!(matches!(parse_condition("   "), Some(Condition::Single(Conjunction::Single(Leaf::Never)))));
}

#[test]
fn expressions_are_classified() {
    assert!(matches!(classify_expression("$driver"), Some(Expr::Var(k)) if k == "driver"));
    assert!(matches!(classify_expression("$res_conn.Value"), Some(Expr::Field(a, b)) if a == "res_conn" && b == "Value"));
    assert!(matches!(classify_expression("'mysql'"), Some(Expr::Str(s)) if s == "mysql"));
    assert!(matches!(classify_expression("true"), Some(Expr::Bool(true))));
    assert!(matches!(classify_expression("nil"), Some(Expr::Nil)));
    assert!(matches!(classify_expression(" 42 "), Some(Expr::Int(42))));
    assert!(matches!(classify_expression("1.5"), Some(Expr::Other(t)) if t == "1.5"));
}

#[test]
fn stopping_a_running_container() {
    let mut rec = record("running");
    let plan = container_stop(&mut rec).unwrap();
    assert_eq!(plan.terminate, vec!["kill", "web", "SIGTERM"]);
    assert_eq!(plan.kill, vec!["kill", "web", "SIGKILL"]);
    assert_eq!(plan.rules.len(), 2);
    assert!(plan.veth.starts_with("veth-h-"));
    assert_eq!(rec.status, "stopped");
    assert_eq!(rec.desired_status.as_deref(), Some("stopped"));
    assert_eq!(rec.pid, 0);
    let mut stopped = record("stopped");
    assert!(container_stop(&mut stopped).is_none());
    assert_eq!(stopped.pid, 77);
}

#[test]
fn start_checks_and_pids() {
    assert!(container_start_check(&record("running")).is_err());
    assert!(container_start_check(&record("stopped")).is_ok());
    assert_eq!(runtime_pid(Some(1234)), 1234);
    assert_eq!(runtime_pid(None), 0);
}

#[test]
fn created_containers_start_out_stopped() {
    let rec = zenopanel::lifecycle::record_new("web", vec!["8080:80".to_string()]);
    assert_eq!(rec.id, "web");
    assert_eq!(rec.status, "created");
    assert_eq!(rec.pid, 0);
    assert_eq!(rec.desired_status, Some("stopped".to_string()));
    assert_eq!(rec.exit_code, None);
    assert_eq!(rec.ip, None);
    assert_eq!(rec.ports, Some(vec!["8080:80".to_string()]));
}

#[test]
fn interpolation_passes() {
    use_pass("plain text", vec![], "plain text", false);
    use_pass("a ${x} b", vec![Some("1".to_string())], "a 1 b", true);
    use_pass("a ${ $y } b", vec![None], "a  b", true);
    use_pass("ab${x", vec![], "abab${x", false);
    assert_eq!(zenopanel::script::placeholder_keys("${a}-${ $b.c }"), vec!["a".to_string(), "b.c".to_string()]);
    assert!(!zenopanel::script::interpolation_continues(0, "no placeholders"));
    assert!(!zenopanel::script::interpolation_continues(10, "${a}"));
}

fn use_pass(cur: &str, vals: Vec<Option<String>>, expected: &str, replaced: bool) {
    assert_eq!(zenopanel::script::interpolate_pass(cur, &vals), (expected.to_string(), replaced));
}
