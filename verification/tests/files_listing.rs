use zenopanel::certs::{cert_details, cert_path};
use zenopanel::files::{is_tar_gz_name, mode_from_int, mode_from_text, write_refusal};
use zenopanel::image::unused_layers;
use zenopanel::listing::{entry_info, sort_listing, DirEntryInfo};

fn entry(name: &str, is_dir: bool) -> DirEntryInfo {
    DirEntryInfo { name: name.to_string(), is_dir, size: 0, mod_time: String::new(), mode: "644".to_string() }
}

#[test]
fn archive_formats() {
    assert!(is_tar_gz_name("/backups/site.tar.gz"));
    assert!(is_tar_gz_name("site.tgz"));
    assert!(!is_tar_gz_name("site.zip"));
    assert!(!is_tar_gz_name("site.gz"));
}

#[test]
fn sensitive_writes_are_refused_outside_development() {
    assert_eq!(write_refusal("", false), Some("io.file.write: path is required".to_string()));
    assert_eq!(write_refusal("", true), Some("io.file.write: path is required".to_string()));
    assert_eq!(
        write_refusal("app/Main.ZL", false),
        Some("security violation: modifying sensitive file 'app/Main.ZL' is restricted in production".to_string())
    );
    assert!(write_refusal("repo/.git/config", false).is_some());
    assert!(write_refusal("src/lib.rs", false).is_some());
    assert!(write_refusal(".env", false).is_some());
    assert_eq!(write_refusal("app/Main.ZL", true), None);
    assert_eq!(write_refusal("public/index.html", false), None);
}

#[test]
fn chmod_modes() {
    assert_eq!(mode_from_int(755), 0o755);
    assert_eq!(mode_from_int(644), 0o644);
    assert_eq!(mode_from_int(789), 789);
    assert_eq!(mode_from_int(-1), u32::MAX);
    assert_eq!(mode_from_text(" 0o750 "), Ok(0o750));
    assert_eq!(mode_from_text("600"), Ok(0o600));
    assert_eq!(mode_from_text("9"), Err("io.file.chmod: invalid mode '9': invalid digit found in string".to_string()));
    assert_eq!(mode_from_text(""), Err("io.file.chmod: invalid mode '': cannot parse integer from empty string".to_string()));
}

#[test]
fn listings_show_directories_first_by_name() {
    let sorted = sort_listing(vec![entry("b.txt", false), entry("zeta", true), entry("a.txt", false), entry("alpha", true)]);
    let names: Vec<&str> = sorted.iter().map(|e| e.name.as_str()).collect();
    assert_eq!(names, vec!["alpha", "zeta", "a.txt", "b.txt"]);
    assert!(sort_listing(Vec::new()).is_empty());
}

#[test]
fn prune_removes_only_unused_layers() {
    let used = vec![vec!["l1".to_string(), "l2".to_string()], vec!["l2".to_string(), "l4".to_string()]];
    let present = vec!["l1".to_string(), "l3".to_string(), "l4".to_string(), "l5".to_string()];
    assert_eq!(unused_layers(&used, &present), vec!["l3", "l5"]);
    assert!(unused_layers(&Vec::new(), &Vec::new()).is_empty());
}

#[test]
fn certificate_details() {
    assert_eq!(cert_path("example.com"), "./certs/example.com.crt");
    let day: u64 = 86400;
    let now = (1_000 * day, 0u32);
    let le = cert_details("active_letsencrypt", Some((1_000 * day - 10 * day, 0)), now);
    assert_eq!(le.issuer, "Let's Encrypt");
    assert_eq!(le.expires_at, Some((1_080 * day, 0)));
    assert_eq!(le.days_remaining, 80);
    let self_signed = cert_details("active", Some((1_000 * day, 5)), (1_000 * day + 365 * day, 6));
    assert_eq!(self_signed.issuer, "Self-Signed");
    assert_eq!(self_signed.days_remaining, 0);
    let almost = cert_details("active", Some((1_000 * day, 6)), (1_000 * day + 364 * day, 5));
    assert_eq!(almost.days_remaining, 1);
    let none = cert_details("active", None, now);
    assert_eq!(none.issuer, "None");
    assert_eq!(none.expires_at, None);
    assert_eq!(none.days_remaining, 0);
    let overflow = cert_details("active", Some((u64::MAX - 5, 0)), now);
    assert_eq!(overflow.issuer, "None");
}

#[test]
fn listing_entries_from_metadata() {
    let e = entry_info("notes.txt".to_string(), false, 42, Some((86_400, 0)), 0o100644);
    assert_eq!(e.name, "notes.txt");
    assert!(!e.is_dir);
    assert_eq!(e.size, 42);
    assert_eq!(e.mod_time, "1970-01-02T00:00:00+00:00");
    assert_eq!(e.mode, "100644");
    let d = entry_info("etc".to_string(), true, 4096, None, 0o40755);
    assert_eq!(d.mod_time, "");
    assert_eq!(d.mode, "40755");
    let t = entry_info("x".to_string(), false, 0, Some((1_700_000_000, 500_000_000)), 0o600);
    assert_eq!(t.mod_time, "2023-11-14T22:13:20.500+00:00");
}
