use zenopanel::registry::{
    basic_auth_header, credentials_from_auth, fallback_authorization, find_registry_credentials, registry_add,
    registry_delete, registry_list, AuthEntry,
};

fn entry(key: &str, auth: &str) -> AuthEntry {
    AuthEntry { key: key.to_string(), auth: Some(auth.to_string()) }
}

#[test]
fn test_docker_config_and_registry_auth() {
    let entries = vec![
        entry("ghcr.io", "bXktdXNlcjpteS1wYXNzd29yZA=="),
        entry("https://index.docker.io/v1/", "ZG9ja2VyLXVzZXI6ZG9ja2VyLXBhc3N3b3Jk"),
    ];
    let ghcr_auth = find_registry_credentials(&entries, "https://ghcr.io");
    assert_eq!(ghcr_auth, Some(("my-user".to_string(), "my-password".to_string())));
    let docker_auth = find_registry_credentials(&entries, "https://registry-1.docker.io");
    assert_eq!(docker_auth, Some(("docker-user".to_string(), "docker-password".to_string())));
}

#[test]
fn test_registry_slots_engine() {
    let mut entries: Vec<AuthEntry> = Vec::new();
    assert!(registry_add(&mut entries, "ghcr.io", "test-user", "test-password"));
    let list = registry_list(&entries);
    assert_eq!(list.len(), 1);
    assert_eq!(list[0], "ghcr.io");
    assert!(registry_delete(&mut entries, "ghcr.io"));
    assert_eq!(registry_list(&entries).len(), 0);
}

#[test]
fn registry_add_stores_one_login_per_registry() {
    let mut entries: Vec<AuthEntry> = Vec::new();
    assert!(registry_add(&mut entries, "ghcr.io", "a", "b"));
    assert!(registry_add(&mut entries, "quay.io", "c", "d"));
    assert!(registry_add(&mut entries, "ghcr.io", "e", "f"));
    assert_eq!(registry_list(&entries), vec!["ghcr.io".to_string(), "quay.io".to_string()]);
    assert_eq!(find_registry_credentials(&entries, "https://ghcr.io"), Some(("e".to_string(), "f".to_string())));
    assert_eq!(find_registry_credentials(&entries, "quay.io"), Some(("c".to_string(), "d".to_string())));
}

#[test]
fn registry_add_refuses_missing_fields() {
    let mut entries: Vec<AuthEntry> = Vec::new();
    assert!(!registry_add(&mut entries, "", "u", "p"));
    assert!(!registry_add(&mut entries, "ghcr.io", "", "p"));
    assert!(!registry_add(&mut entries, "ghcr.io", "u", ""));
    assert!(entries.is_empty());
}

#[test]
fn registry_delete_of_unknown_registry_is_false() {
    let mut entries = vec![entry("ghcr.io", "eDp5")];
    assert!(!registry_delete(&mut entries, "quay.io"));
    assert!(!registry_delete(&mut entries, ""));
    assert_eq!(entries.len(), 1);
}

#[test]
fn registry_login_is_base64_of_user_and_password() {
    let mut entries: Vec<AuthEntry> = Vec::new();
    assert!(registry_add(&mut entries, "ghcr.io", "my-user", "my-password"));
    assert_eq!(entries[0].auth.as_deref(), Some("bXktdXNlcjpteS1wYXNzd29yZA=="));
}

#[test]
fn basic_auth_header_encodes_credentials() {
    assert_eq!(basic_auth_header("docker-user", "docker-password"), "Basic ZG9ja2VyLXVzZXI6ZG9ja2VyLXBhc3N3b3Jk");
    assert_eq!(
        fallback_authorization(&Some(("my-user".to_string(), "my-password".to_string()))),
        "Basic bXktdXNlcjpteS1wYXNzd29yZA=="
    );
    assert_eq!(fallback_authorization(&None), "");
}

#[test]
fn credentials_from_auth_rejects_bad_text() {
    assert_eq!(credentials_from_auth("bXktdXNlcjpteS1wYXNzd29yZA=="), Some(("my-user".to_string(), "my-password".to_string())));
    assert_eq!(credentials_from_auth("not base64!"), None);
    // "nocolon" has no separator between user and password.
    assert_eq!(credentials_from_auth("bm9jb2xvbg=="), None);
}

#[test]
fn registry_credentials_skip_other_hosts() {
    let entries = vec![entry("quay.io", "bXktdXNlcjpteS1wYXNzd29yZA==")];
    assert_eq!(find_registry_credentials(&entries, "https://ghcr.io"), None);
}

#[test]
fn stored_login_reads_back_through_any_url_of_the_registry() {
    let mut entries = vec![entry("quay.io", "eDp5")];
    assert!(registry_add(&mut entries, "ghcr.io", "jürgen", "p:ss wörd"));
    let expected = Some(("jürgen".to_string(), "p:ss wörd".to_string()));
    assert_eq!(find_registry_credentials(&entries, "ghcr.io"), expected);
    assert_eq!(find_registry_credentials(&entries, "https://ghcr.io/"), expected);
    assert_eq!(find_registry_credentials(&entries, "http://ghcr.io"), expected);
}

#[test]
fn deleting_a_login_keeps_the_others_in_order() {
    let mut entries = vec![entry("a.io", "eDp5"), entry("ghcr.io", "eDp5"), entry("b.io", "eDp5")];
    assert!(registry_delete(&mut entries, "ghcr.io"));
    assert_eq!(registry_list(&entries), vec!["a.io".to_string(), "b.io".to_string()]);
}
