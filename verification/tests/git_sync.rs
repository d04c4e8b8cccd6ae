use zenopanel::gitsync::{
    check_sync, clone_result, compose_app_volume, compose_project_dir, compose_sync_report, failed_sync,
    parse_git_settings, process_sync_report, pull_fetch_failure, pull_result, settings_document, settings_listing,
    settings_path, sync_commands, CommandOutcome, GitSettings,
};

fn settings(repo: &str, branch: &str, token: &str) -> GitSettings {
    GitSettings { repo_url: repo.to_string(), branch: branch.to_string(), webhook_token: token.to_string() }
}

#[test]
fn test_compose_git_slots() {
    let saved = settings("https://github.com/user/repo.git", "production", "secret123");
    let doc = settings_document(&saved);
    assert!(doc.is_some());
    let listing = settings_listing(doc.as_deref().unwrap());
    let get = |k: &str| listing.iter().find(|(n, _)| n == k).map(|(_, v)| v.clone());
    assert_eq!(get("repo_url"), Some("https://github.com/user/repo.git".to_string()));
    assert_eq!(get("branch"), Some("production".to_string()));
    assert_eq!(get("webhook_token"), Some("secret123".to_string()));
}

#[test]
fn saved_settings_parse_back() {
    let doc = settings_document(&settings("git@example.com:a/b.git", "dev", "t0k\"en")).unwrap();
    let back = parse_git_settings(&doc).unwrap();
    assert_eq!(back.repo_url, "git@example.com:a/b.git");
    assert_eq!(back.branch, "dev");
    assert_eq!(back.webhook_token, "t0k\"en");
}

#[test]
fn settings_defaults_and_parse_errors() {
    let s = parse_git_settings("{\"repo_url\": \"r\", \"branch\": 5}").unwrap();
    assert_eq!(s.repo_url, "r");
    assert_eq!(s.branch, "main");
    assert_eq!(s.webhook_token, "");
    let e = parse_git_settings("not json").err().unwrap();
    assert!(e.starts_with("Failed to parse Git config: "));
    assert!(settings_listing("[1, 2]").is_empty());
    assert!(settings_listing("nope").is_empty());
    let l = settings_listing("{\"a\": 1, \"b\": \"x\"}");
    assert_eq!(l, vec![("a".to_string(), "".to_string()), ("b".to_string(), "x".to_string())]);
}

#[test]
fn sync_refusals() {
    let s = settings("https://x/r.git", "main", "tok");
    assert_eq!(check_sync(&s, "other"), Some("Unauthorized: Token mismatch".to_string()));
    assert_eq!(check_sync(&s, "tok"), None);
    assert_eq!(check_sync(&s, ""), None);
    let empty = settings("", "main", "tok");
    assert_eq!(check_sync(&empty, "tok"), Some("Git repository URL is empty".to_string()));
    assert_eq!(check_sync(&empty, "bad"), Some("Unauthorized: Token mismatch".to_string()));
}

#[test]
fn sync_commands_for_existing_and_fresh_trees() {
    let s = settings("https://x/r.git", "prod", "");
    let pull = sync_commands(true, &s);
    assert_eq!(pull, vec![vec!["fetch", "--all"], vec!["reset", "--hard", "origin/prod"]]);
    let fresh = sync_commands(false, &s);
    assert_eq!(
        fresh,
        vec![
            vec!["init".to_string()],
            vec!["remote".to_string(), "add".to_string(), "origin".to_string(), "https://x/r.git".to_string()],
            vec!["fetch".to_string(), "origin".to_string()],
            vec!["checkout".to_string(), "-f".to_string(), "prod".to_string()],
        ]
    );
}

#[test]
fn pull_and_clone_outcomes() {
    let ok = CommandOutcome::Exited { success: true, stderr: String::new() };
    let bad = CommandOutcome::Exited { success: false, stderr: "boom".to_string() };
    let lost = CommandOutcome::NotRun("no git".to_string());
    assert_eq!(pull_fetch_failure(&ok), None);
    assert_eq!(pull_fetch_failure(&bad), Some("git fetch failed: boom".to_string()));
    assert_eq!(pull_fetch_failure(&lost), Some("Failed to run git fetch: no git".to_string()));
    assert_eq!(pull_result(&ok), Ok("Git pull & reset --hard completed successfully".to_string()));
    assert_eq!(pull_result(&bad), Err("git reset failed: boom".to_string()));
    assert_eq!(pull_result(&lost), Err("Failed to run git reset: no git".to_string()));
    assert_eq!(clone_result(&vec![true, true, true, true]), Ok("Git clone/checkout completed successfully".to_string()));
    assert_eq!(
        clone_result(&vec![true, false, true, true]),
        Err("Git initialization or checkout failed. Please verify the repository URL and permissions.".to_string())
    );
}

#[test]
fn sync_reports() {
    let r = process_sync_report("pulled", &Ok(()));
    assert!(r.success);
    assert_eq!(r.stdout.as_deref(), Some("pulled\n\nProcess restarted successfully"));
    let r = process_sync_report("pulled", &Err("dead".to_string()));
    assert!(!r.success);
    assert_eq!(r.stderr.as_deref(), Some("Git pulled but process restart failed: dead"));
    let r = compose_sync_report("pulled", &Some(Ok("up".to_string())));
    assert_eq!(r.stdout.as_deref(), Some("pulled\n\nup"));
    let r = compose_sync_report("pulled", &Some(Err("down".to_string())));
    assert_eq!(r.stderr.as_deref(), Some("Git pulled but compose restart failed: down"));
    let r = compose_sync_report("pulled", &None);
    assert!(r.success);
    assert_eq!(r.stdout.as_deref(), Some("pulled (Note: No docker-compose.yml to restart)"));
    let r = failed_sync("Process not found".to_string());
    assert!(!r.success);
    assert_eq!(r.stderr.as_deref(), Some("Process not found"));
}

#[test]
fn git_paths() {
    assert_eq!(settings_path("/srv/app"), "/srv/app/.zeno-git.json");
    assert_eq!(compose_project_dir("/var/lib/zeno-container", "shop"), "/var/lib/zeno-container/compose/shop");
    assert_eq!(compose_app_volume("/var/lib/zeno-container", "shop"), "/var/lib/zeno-container/volumes/shop_app_data");
}

#[test]
fn saved_settings_list_each_field_once() {
    let doc = settings_document(&settings("https://example.com/r.git", "main", "s3cret")).unwrap();
    let mut listed = settings_listing(&doc);
    listed.sort();
    assert_eq!(
        listed,
        vec![
            ("branch".to_string(), "main".to_string()),
            ("repo_url".to_string(), "https://example.com/r.git".to_string()),
            ("webhook_token".to_string(), "s3cret".to_string()),
        ]
    );
}
