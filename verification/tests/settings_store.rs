use zenopanel::num::{int_to_string, parse_i64_exec};
use zenopanel::settings::{
    backup_run_rows, backup_setting_rows, log_setting_rows, read_backup_settings, read_log_settings,
    security_setting_rows, stored_text, upsert_settings, BackupSettings, LogSettings,
};

#[test]
fn backup_settings_read_back() {
    let mut table = vec![("backup_interval_hours".to_string(), "6".to_string()), ("other".to_string(), "x".to_string())];
    let s = BackupSettings {
        enabled: true,
        interval_hours: -12,
        retention: 30,
        dest_dir: "/backups".to_string(),
        post_script: "sync.sh".to_string(),
    };
    upsert_settings(&mut table, backup_setting_rows(&s));
    let back = read_backup_settings(&table);
    assert!(back.settings.enabled);
    assert_eq!(back.settings.interval_hours, -12);
    assert_eq!(back.settings.retention, 30);
    assert_eq!(back.settings.dest_dir, "/backups");
    assert_eq!(back.settings.post_script, "sync.sh");
    assert_eq!(back.last_run, "");
    assert_eq!(stored_text(&table, "other"), "x");
    assert_eq!(table.len(), 6);
}

#[test]
fn backup_settings_defaults() {
    let table = vec![("backup_retention".to_string(), "many".to_string())];
    let back = read_backup_settings(&table);
    assert!(!back.settings.enabled);
    assert_eq!(back.settings.interval_hours, 24);
    assert_eq!(back.settings.retention, 7);
}

#[test]
fn backup_runs_record_their_outcome() {
    let ok = backup_run_rows("2024-01-01T00:00:00Z", &Ok("b.tar.gz".to_string()));
    assert_eq!(ok[1], ("backup_last_status".to_string(), "Success (Filename: b.tar.gz)".to_string()));
    let bad = backup_run_rows("t", &Err("disk full".to_string()));
    assert_eq!(bad[1].1, "Failed: disk full");
    let mut table: Vec<(String, String)> = Vec::new();
    upsert_settings(&mut table, ok);
    upsert_settings(&mut table, bad);
    assert_eq!(read_backup_settings(&table).last_status, "Failed: disk full");
}

#[test]
fn log_settings_read_back() {
    let mut table: Vec<(String, String)> = Vec::new();
    assert_eq!(read_log_settings(&table).max_size_mb, 10);
    upsert_settings(&mut table, log_setting_rows(&LogSettings { interval_hours: 12, max_size_mb: 50, waf_retention_days: 90 }));
    let back = read_log_settings(&table);
    assert_eq!((back.interval_hours, back.max_size_mb, back.waf_retention_days), (12, 50, 90));
}

#[test]
fn security_setting_rows_as_text() {
    let rows = security_setting_rows(false, true, 1000, 60);
    assert_eq!(
        rows,
        vec![
            ("waf_enabled".to_string(), "false".to_string()),
            ("rate_limit_enabled".to_string(), "true".to_string()),
            ("rate_limit_max".to_string(), "1000".to_string()),
            ("rate_limit_window".to_string(), "60".to_string()),
        ]
    );
}

#[test]
fn decimal_text_parses_back() {
    for n in [0i64, 7, -7, 1234567890, i64::MAX, i64::MIN] {
        assert_eq!(parse_i64_exec(&int_to_string(n)).ok(), Some(n));
    }
}
