//! The panel's stored settings: the rows that saving backup, log and security
//! settings writes to the settings table (one value per key, a later write
//! replacing an earlier one), and how the stored text is read back.
use vstd::prelude::*;
use crate::compose::{env_insert, env_insert_exec, env_lookup, key_index_exec, law_env_lookup_after_insert, pairs_view};
use crate::num::{decimal, int_to_string, law_decimal_parses_back, parse_i64, parse_i64_exec, uint_to_string};
use crate::text::owned;

verus! {

/// The settings table after writing `rows` in order.
pub open spec fn upsert_rows(table: Seq<(Seq<char>, Seq<char>)>, rows: Seq<(Seq<char>, Seq<char>)>) -> Seq<
    (Seq<char>, Seq<char>),
>
    decreases rows.len(),
{
    if rows.len() == 0 {
        table
    } else {
        env_insert(upsert_rows(table, rows.drop_last()), rows.last().0, rows.last().1)
    }
}

/// Writes `rows` to the settings table in order.
pub fn upsert_settings(table: &mut Vec<(String, String)>, rows: Vec<(String, String)>)
    ensures
        pairs_view(final(table)@) == upsert_rows(pairs_view(old(table)@), pairs_view(rows@)),
{
    let ghost start = pairs_view(table@);
    let ghost rv = pairs_view(rows@);
    let mut rest = rows;
    let mut done: Vec<(String, String)> = Vec::new();
    while rest.len() > 0
        invariant
            pairs_view(done@) + pairs_view(rest@) == rv,
            pairs_view(table@) == upsert_rows(start, pairs_view(done@)),
        decreases rest@.len(),
    {
        let ghost before_rest = pairs_view(rest@);
        let (k, v) = rest.remove(0);
        let ghost d0 = pairs_view(done@);
        proof {
            assert(pairs_view(rest@) =~= before_rest.drop_first());
        }
        env_insert_exec(table, k.clone(), v.clone());
        done.push((k, v));
        assert(pairs_view(done@).drop_last() =~= d0);
        assert(pairs_view(done@) + pairs_view(rest@) =~= rv);
    }
    assert(pairs_view(rest@) =~= Seq::<(Seq<char>, Seq<char>)>::empty());
    assert(pairs_view(done@) =~= rv);
}

/// The text stored under `key`, empty when there is none.
pub open spec fn stored(table: Seq<(Seq<char>, Seq<char>)>, key: Seq<char>) -> Seq<char> {
    match env_lookup(table, key) {
        Some(v) => v,
        None => Seq::empty(),
    }
}

/// The text stored under `key`.
pub fn stored_text(table: &Vec<(String, String)>, key: &str) -> (r: String)
    ensures
        r@ == stored(pairs_view(table@), key@),
{
    let k = owned(key);
    match key_index_exec(table, &k) {
        Some(i) => table[i].1.clone(),
        None => String::new(),
    }
}

/// A stored integer: the text read as an `i64`, or `default` when it is not one.
pub open spec fn int_or(text: Seq<char>, default: int) -> int {
    match parse_i64(text) {
        Ok(v) => v,
        Err(_) => default,
    }
}

/// A stored integer.
fn int_setting(table: &Vec<(String, String)>, key: &str, default: i64) -> (r: i64)
    ensures
        r == int_or(stored(pairs_view(table@), key@), default as int),
{
    let t = stored_text(table, key);
    match parse_i64_exec(t.as_str()) {
        Ok(v) => v,
        Err(_) => default,
    }
}

/// A stored switch: on exactly when the text is `true`.
pub open spec fn flag_of(text: Seq<char>) -> bool {
    text == "true"@
}

/// The text a switch is stored as.
pub open spec fn flag_text(b: bool) -> Seq<char> {
    if b {
        "true"@
    } else {
        "false"@
    }
}

/// The text a switch is stored as.
fn flag_text_exec(b: bool) -> (r: String)
    ensures
        r@ == flag_text(b),
{
    if b {
        owned("true")
    } else {
        owned("false")
    }
}

/// The backup settings that can be changed.
pub struct BackupSettings {
    pub enabled: bool,
    pub interval_hours: i64,
    pub retention: i64,
    pub dest_dir: String,
    pub post_script: String,
}

/// The backup settings as shown, with the outcome of the last run.
pub struct BackupStatus {
    pub settings: BackupSettings,
    pub last_run: String,
    pub last_status: String,
}

/// The rows that saving backup settings writes.
pub open spec fn backup_rows(enabled: bool, interval: int, retention: int, dest: Seq<char>, post: Seq<char>) -> Seq<
    (Seq<char>, Seq<char>),
> {
    seq![
        ("backup_enabled"@, flag_text(enabled)),
        ("backup_interval_hours"@, decimal(interval)),
        ("backup_retention"@, decimal(retention)),
        ("backup_dest_dir"@, dest),
        ("backup_post_script"@, post),
    ]
}

/// The rows that saving `s` writes.
pub fn backup_setting_rows(s: &BackupSettings) -> (r: Vec<(String, String)>)
    ensures
        pairs_view(r@) == backup_rows(s.enabled, s.interval_hours as int, s.retention as int, s.dest_dir@, s.post_script@),
{
    let mut r: Vec<(String, String)> = Vec::new();
    r.push((owned("backup_enabled"), flag_text_exec(s.enabled)));
    r.push((owned("backup_interval_hours"), int_to_string(s.interval_hours)));
    r.push((owned("backup_retention"), int_to_string(s.retention)));
    r.push((owned("backup_dest_dir"), s.dest_dir.clone()));
    r.push((owned("backup_post_script"), s.post_script.clone()));
    assert(pairs_view(r@) =~= backup_rows(
        s.enabled,
        s.interval_hours as int,
        s.retention as int,
        s.dest_dir@,
        s.post_script@,
    ));
    r
}

/// The backup settings a table holds: the interval defaults to 24 hours and
/// the retention to 7 when they are not stored as integers.
pub fn read_backup_settings(table: &Vec<(String, String)>) -> (r: BackupStatus)
    ensures
        r.settings.enabled == flag_of(stored(pairs_view(table@), "backup_enabled"@)),
        r.settings.interval_hours == int_or(stored(pairs_view(table@), "backup_interval_hours"@), 24),
        r.settings.retention == int_or(stored(pairs_view(table@), "backup_retention"@), 7),
        r.settings.dest_dir@ == stored(pairs_view(table@), "backup_dest_dir"@),
        r.settings.post_script@ == stored(pairs_view(table@), "backup_post_script"@),
        r.last_run@ == stored(pairs_view(table@), "backup_last_run"@),
        r.last_status@ == stored(pairs_view(table@), "backup_last_status"@),
{
    let enabled = stored_text(table, "backup_enabled") == owned("true");
    BackupStatus {
        settings: BackupSettings {
            enabled,
            interval_hours: int_setting(table, "backup_interval_hours", 24),
            retention: int_setting(table, "backup_retention", 7),
            dest_dir: stored_text(table, "backup_dest_dir"),
            post_script: stored_text(table, "backup_post_script"),
        },
        last_run: stored_text(table, "backup_last_run"),
        last_status: stored_text(table, "backup_last_status"),
    }
}

/// The rows that a finished backup run writes: when it ran, and its outcome.
pub fn backup_run_rows(run_time: &str, outcome: &Result<String, String>) -> (r: Vec<(String, String)>)
    ensures
        pairs_view(r@) == seq![
            ("backup_last_run"@, run_time@),
            ("backup_last_status"@, match outcome {
                Ok(f) => "Success (Filename: "@ + f@ + ")"@,
                Err(e) => "Failed: "@ + e@,
            }),
        ],
{
    let status = match outcome {
        Ok(f) => crate::text::concat3("Success (Filename: ", f.as_str(), ")"),
        Err(e) => crate::text::concat("Failed: ", e.as_str()),
    };
    let mut r: Vec<(String, String)> = Vec::new();
    r.push((owned("backup_last_run"), owned(run_time)));
    r.push((owned("backup_last_status"), status));
    assert(pairs_view(r@) =~= seq![
        ("backup_last_run"@, run_time@),
        ("backup_last_status"@, match outcome {
            Ok(f) => "Success (Filename: "@ + f@ + ")"@,
            Err(e) => "Failed: "@ + e@,
        }),
    ]);
    r
}

/// What saving backup settings writes is what reading them gives back, over
/// whatever the table held before.
pub proof fn law_backup_settings_read_back(
    table: Seq<(Seq<char>, Seq<char>)>,
    enabled: bool,
    interval: i64,
    retention: i64,
    dest: Seq<char>,
    post: Seq<char>,
)
    ensures
        ({
            let t = upsert_rows(table, backup_rows(enabled, interval as int, retention as int, dest, post));
            &&& flag_of(stored(t, "backup_enabled"@)) == enabled
            &&& int_or(stored(t, "backup_interval_hours"@), 24) == interval
            &&& int_or(stored(t, "backup_retention"@), 7) == retention
            &&& stored(t, "backup_dest_dir"@) == dest
            &&& stored(t, "backup_post_script"@) == post
        }),
{
    reveal_strlit("backup_enabled");
    reveal_strlit("backup_interval_hours");
    reveal_strlit("backup_retention");
    reveal_strlit("backup_dest_dir");
    reveal_strlit("backup_post_script");
    reveal_strlit("true");
    reveal_strlit("false");
    let rows = backup_rows(enabled, interval as int, retention as int, dest, post);
    let t1 = upsert_rows(table, rows.take(1));
    let t2 = upsert_rows(table, rows.take(2));
    let t3 = upsert_rows(table, rows.take(3));
    let t4 = upsert_rows(table, rows.take(4));
    let t5 = upsert_rows(table, rows);
    assert(rows.take(1).drop_last() =~= rows.take(0));
    assert(rows.take(2).drop_last() =~= rows.take(1));
    assert(rows.take(3).drop_last() =~= rows.take(2));
    assert(rows.take(4).drop_last() =~= rows.take(3));
    assert(rows.drop_last() =~= rows.take(4));
    assert(upsert_rows(table, rows.take(0)) == table);
    let keys = seq![
        "backup_enabled"@,
        "backup_interval_hours"@,
        "backup_retention"@,
        "backup_dest_dir"@,
        "backup_post_script"@,
    ];
    assert forall|a: int, b: int| 0 <= a < 5 && 0 <= b < 5 && a != b implies keys[a] != keys[b] by {
        assert(keys[a].len() != keys[b].len());
    }
    assert forall|j: int| 0 <= j < 5 implies env_lookup(t5, #[trigger] keys[j]) == Some(rows[j].1) by {
        law_env_lookup_after_insert(table, rows[0].0, rows[0].1, keys[j]);
        law_env_lookup_after_insert(t1, rows[1].0, rows[1].1, keys[j]);
        law_env_lookup_after_insert(t2, rows[2].0, rows[2].1, keys[j]);
        law_env_lookup_after_insert(t3, rows[3].0, rows[3].1, keys[j]);
        law_env_lookup_after_insert(t4, rows[4].0, rows[4].1, keys[j]);
        assert(keys[0] != keys[1] && keys[0] != keys[2] && keys[0] != keys[3] && keys[0] != keys[4]);
        assert(keys[1] != keys[2] && keys[1] != keys[3] && keys[1] != keys[4]);
        assert(keys[2] != keys[3] && keys[2] != keys[4] && keys[3] != keys[4]);
    }
    assert(env_lookup(t5, keys[0]) == Some(rows[0].1));
    assert(env_lookup(t5, keys[1]) == Some(rows[1].1));
    assert(env_lookup(t5, keys[2]) == Some(rows[2].1));
    assert(env_lookup(t5, keys[3]) == Some(rows[3].1));
    assert(env_lookup(t5, keys[4]) == Some(rows[4].1));
    law_decimal_parses_back(interval);
    law_decimal_parses_back(retention);
    assert("false"@ != "true"@) by {
        assert("false"@.len() != "true"@.len());
    }
}

/// The log settings that can be changed.
pub struct LogSettings {
    pub interval_hours: i64,
    pub max_size_mb: i64,
    pub waf_retention_days: i64,
}

/// The rows that saving log settings writes.
pub open spec fn log_rows(interval: int, max_size: int, waf_retention: int) -> Seq<(Seq<char>, Seq<char>)> {
    seq![
        ("log_rotation_interval_hours"@, decimal(interval)),
        ("log_max_size_mb"@, decimal(max_size)),
        ("waf_log_retention_days"@, decimal(waf_retention)),
    ]
}

/// The rows that saving `s` writes.
pub fn log_setting_rows(s: &LogSettings) -> (r: Vec<(String, String)>)
    ensures
        pairs_view(r@) == log_rows(s.interval_hours as int, s.max_size_mb as int, s.waf_retention_days as int),
{
    let mut r: Vec<(String, String)> = Vec::new();
    r.push((owned("log_rotation_interval_hours"), int_to_string(s.interval_hours)));
    r.push((owned("log_max_size_mb"), int_to_string(s.max_size_mb)));
    r.push((owned("waf_log_retention_days"), int_to_string(s.waf_retention_days)));
    assert(pairs_view(r@) =~= log_rows(s.interval_hours as int, s.max_size_mb as int, s.waf_retention_days as int));
    r
}

/// The log settings a table holds: 24 hours, 10 MB and 30 days when they are
/// not stored as integers.
pub fn read_log_settings(table: &Vec<(String, String)>) -> (r: LogSettings)
    ensures
        r.interval_hours == int_or(stored(pairs_view(table@), "log_rotation_interval_hours"@), 24),
        r.max_size_mb == int_or(stored(pairs_view(table@), "log_max_size_mb"@), 10),
        r.waf_retention_days == int_or(stored(pairs_view(table@), "waf_log_retention_days"@), 30),
{
    LogSettings {
        interval_hours: int_setting(table, "log_rotation_interval_hours", 24),
        max_size_mb: int_setting(table, "log_max_size_mb", 10),
        waf_retention_days: int_setting(table, "waf_log_retention_days", 30),
    }
}

/// What saving log settings writes is what reading them gives back.
pub proof fn law_log_settings_read_back(table: Seq<(Seq<char>, Seq<char>)>, interval: i64, max_size: i64, waf_retention: i64)
    ensures
        ({
            let t = upsert_rows(table, log_rows(interval as int, max_size as int, waf_retention as int));
            &&& int_or(stored(t, "log_rotation_interval_hours"@), 24) == interval
            &&& int_or(stored(t, "log_max_size_mb"@), 10) == max_size
            &&& int_or(stored(t, "waf_log_retention_days"@), 30) == waf_retention
        }),
{
    reveal_strlit("log_rotation_interval_hours");
    reveal_strlit("log_max_size_mb");
    reveal_strlit("waf_log_retention_days");
    let rows = log_rows(interval as int, max_size as int, waf_retention as int);
    let t1 = upsert_rows(table, rows.take(1));
    let t2 = upsert_rows(table, rows.take(2));
    let t3 = upsert_rows(table, rows);
    assert(rows.take(1).drop_last() =~= rows.take(0));
    assert(rows.take(2).drop_last() =~= rows.take(1));
    assert(rows.drop_last() =~= rows.take(2));
    assert(upsert_rows(table, rows.take(0)) == table);
    let keys = seq!["log_rotation_interval_hours"@, "log_max_size_mb"@, "waf_log_retention_days"@];
    assert(keys[0] != keys[1] && keys[0] != keys[2] && keys[1] != keys[2]) by {
        assert(keys[0].len() != keys[1].len() && keys[0].len() != keys[2].len() && keys[1].len() != keys[2].len());
    }
    assert forall|j: int| 0 <= j < 3 implies env_lookup(t3, #[trigger] keys[j]) == Some(rows[j].1) by {
        law_env_lookup_after_insert(table, rows[0].0, rows[0].1, keys[j]);
        law_env_lookup_after_insert(t1, rows[1].0, rows[1].1, keys[j]);
        law_env_lookup_after_insert(t2, rows[2].0, rows[2].1, keys[j]);
    }
    assert(env_lookup(t3, keys[0]) == Some(rows[0].1));
    assert(env_lookup(t3, keys[1]) == Some(rows[1].1));
    assert(env_lookup(t3, keys[2]) == Some(rows[2].1));
    law_decimal_parses_back(interval);
    law_decimal_parses_back(max_size);
    law_decimal_parses_back(waf_retention);
}

/// The rows that saving the security settings writes: the firewall switch,
/// the rate limiter's switch, its request limit and its window in seconds.
pub fn security_setting_rows(waf_enabled: bool, rate_limit_enabled: bool, rate_limit_max: u64, rate_limit_window: u64) -> (r:
    Vec<(String, String)>)
    ensures
        pairs_view(r@) == seq![
            ("waf_enabled"@, flag_text(waf_enabled)),
            ("rate_limit_enabled"@, flag_text(rate_limit_enabled)),
            ("rate_limit_max"@, decimal(rate_limit_max as int)),
            ("rate_limit_window"@, decimal(rate_limit_window as int)),
        ],
{
    let mut r: Vec<(String, String)> = Vec::new();
    r.push((owned("waf_enabled"), flag_text_exec(waf_enabled)));
    r.push((owned("rate_limit_enabled"), flag_text_exec(rate_limit_enabled)));
    r.push((owned("rate_limit_max"), uint_to_string(rate_limit_max)));
    r.push((owned("rate_limit_window"), uint_to_string(rate_limit_window)));
    assert(pairs_view(r@) =~= seq![
        ("waf_enabled"@, flag_text(waf_enabled)),
        ("rate_limit_enabled"@, flag_text(rate_limit_enabled)),
        ("rate_limit_max"@, decimal(rate_limit_max as int)),
        ("rate_limit_window"@, decimal(rate_limit_window as int)),
    ]);
    r
}

} // verus!
