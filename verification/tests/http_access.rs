use zenopanel::access::{
    clear_cookie_value, client_ip, coalesce_target_name, has_role, is_admin, is_download_url, is_nil_text,
    normalize_entrance_path, parse_contains_condition, process_log_download, set_cookie_value, status_code,
    target_name, upload_boundary, upload_file_name, HttpResponseBuilder,
};

#[test]
fn roles_are_ordered() {
    assert!(has_role("admin", "editor"));
    assert!(has_role("admin", "viewer"));
    assert!(has_role("editor", "viewer"));
    assert!(!has_role("viewer", "editor"));
    assert!(!has_role("editor", "admin"));
    assert!(!has_role("admin", "root"));
    assert!(is_admin("admin"));
    assert!(!is_admin("Admin"));
}

#[test]
fn entrance_paths() {
    assert_eq!(normalize_entrance_path("  secret "), Some("/secret".to_string()));
    assert_eq!(normalize_entrance_path("/panel"), Some("/panel".to_string()));
    assert_eq!(normalize_entrance_path("   "), None);
}

#[test]
fn cookies() {
    assert_eq!(
        set_cookie_value("session", "abc", "/", "Lax", true, Some(3600)),
        "session=abc; Path=/; SameSite=Lax; HttpOnly; Max-Age=3600"
    );
    assert_eq!(set_cookie_value("a", "b", "/x", "Strict", false, None), "a=b; Path=/x; SameSite=Strict");
    assert_eq!(clear_cookie_value("session", "/", "Lax"), "session=; Path=/; Max-Age=0; SameSite=Lax");
}

#[test]
fn unauthenticated_requests_are_denied() {
    let mut b = HttpResponseBuilder::new();
    b.deny_unauthenticated("/api/users");
    assert_eq!(b.status, 401);
    assert_eq!(b.headers, vec![("Content-Type".to_string(), "application/json".to_string())]);
    assert_eq!(
        b.body.as_deref(),
        Some("{\"message\":\"Unauthorized: Silakan login terlebih dahulu\",\"success\":false}".as_bytes())
    );
    let mut p = HttpResponseBuilder::new();
    p.deny_unauthenticated("/dashboard");
    assert_eq!(p.status, 404);
    assert_eq!(p.body.as_deref(), Some("Halaman tidak ditemukan.".as_bytes()));
}

#[test]
fn response_builder_replaces_headers() {
    let mut b = HttpResponseBuilder::new();
    b.set_header("X-A", "1");
    b.set_header("X-B", "2");
    b.set_header("X-A", "3");
    assert_eq!(b.headers, vec![("X-A".to_string(), "3".to_string()), ("X-B".to_string(), "2".to_string())]);
    b.add_cookie("c=1".to_string());
    b.redirect("/login", 303);
    assert_eq!(b.status, 303);
    assert_eq!(b.body.as_deref(), Some(&[][..]));
    assert_eq!(b.cookies, vec!["c=1".to_string()]);
    assert!(b.headers.contains(&("Location".to_string(), "/login".to_string())));
}

#[test]
fn log_downloads() {
    let mut b = HttpResponseBuilder::new();
    b.respond_log("web", "line\n");
    assert_eq!(b.status, 200);
    assert!(b.headers.contains(&("Content-Type".to_string(), "application/octet-stream".to_string())));
    assert!(b.headers.contains(&("Content-Disposition".to_string(), "attachment; filename=\"web.log\"".to_string())));
    assert_eq!(b.body.as_deref(), Some("line\n".as_bytes()));
    let mut m = HttpResponseBuilder::new();
    m.respond_log_missing();
    assert_eq!(m.status, 404);
    assert_eq!(m.body.as_deref(), Some("{\"message\":\"Log file not found\"}".as_bytes()));
    assert_eq!(
        process_log_download("web"),
        ("./logs/web.log".to_string(), "attachment; filename=\"web.log\"".to_string())
    );
}

#[test]
fn slot_argument_readings() {
    assert_eq!(target_name("$result"), "result");
    assert_eq!(target_name("$$x"), "x");
    assert_eq!(coalesce_target_name("  $conn  "), "conn");
    assert!(is_nil_text(""));
    assert!(is_nil_text("nil"));
    assert!(is_nil_text("<nil>"));
    assert!(is_nil_text("$res_conn.Value"));
    assert!(!is_nil_text("0"));
    assert!(is_download_url("https://example.com/a.iso"));
    assert!(!is_download_url("ftp://example.com"));
    assert!(is_download_url("HTTPS://Example.com/b.iso"));
    assert!(is_download_url("Http://mirror/c.iso"));
    assert_eq!(status_code(404), 404);
    assert_eq!(status_code(65536 + 200), 200);
}

#[test]
fn contains_conditions() {
    assert_eq!(
        parse_contains_condition("$driver, value: 'ys'"),
        Some(("$driver".to_string(), Some("'ys'".to_string())))
    );
    assert_eq!(parse_contains_condition("$driver, 'ys'"), Some(("$driver".to_string(), None)));
    assert_eq!(parse_contains_condition("$driver"), None);
}

#[test]
fn client_addresses() {
    assert_eq!(client_ip(&Some(" 10.0.0.1 , 10.0.0.2".to_string())), "10.0.0.1");
    assert_eq!(client_ip(&Some("".to_string())), "");
    assert_eq!(client_ip(&None), "unknown");
}

#[test]
fn upload_names_and_boundaries() {
    assert_eq!(upload_boundary(&Some("multipart/form-data; boundary=XyZ".to_string())), Ok("XyZ".to_string()));
    assert_eq!(
        upload_boundary(&Some("application/json".to_string())),
        Err("http.save_uploads: invalid or missing multipart boundary".to_string())
    );
    assert_eq!(upload_boundary(&None), Err("http.save_uploads: invalid or missing multipart boundary".to_string()));
    assert_eq!(upload_file_name("../../etc/passwd"), Ok("passwd".to_string()));
    assert_eq!(upload_file_name("photo.png"), Ok("photo.png".to_string()));
    assert_eq!(upload_file_name(".env"), Err("http.save_uploads: invalid filename '.env'".to_string()));
    assert_eq!(upload_file_name(""), Err("http.save_uploads: invalid filename ''".to_string()));
}
