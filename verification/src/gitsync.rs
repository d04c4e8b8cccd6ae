//! Keeping a working tree in step with a Git repository: the settings saved
//! beside a process or a compose project, who may ask for a sync, the git
//! commands that a sync runs, and what it reports.
use vstd::prelude::*;
use crate::image::opt_view;
use crate::network::text_args;
use crate::paths::{join_path, path_join};
use crate::text::{concat, concat3, owned, views};

verus! {

/// The Git settings of a process or a compose project.
pub struct GitSettings {
    pub repo_url: String,
    pub branch: String,
    pub webhook_token: String,
}

/// The settings as text: repository, branch and webhook token.
pub open spec fn settings_view(s: GitSettings) -> (Seq<char>, Seq<char>, Seq<char>) {
    (s.repo_url@, s.branch@, s.webhook_token@)
}

/// The file that holds the Git settings of the working tree `dir`.
pub fn settings_path(dir: &str) -> (r: String)
    ensures
        r@ == path_join(dir@, ".zeno-git.json"@),
{
    join_path(dir, ".zeno-git.json")
}

/// The fields of the JSON object that `content` holds, in the order in which
/// the parsed object lists them, each with its value when that value is a
/// string; no fields when the document is not an object; the parser's message
/// when `content` is not JSON.
pub uninterp spec fn json_string_fields(content: Seq<char>) -> Result<Seq<(Seq<char>, Option<Seq<char>>)>, Seq<char>>;

/// The view of a list of fields.
pub open spec fn fields_view(v: Seq<(String, Option<String>)>) -> Seq<(Seq<char>, Option<Seq<char>>)> {
    v.map_values(|p: (String, Option<String>)| (p.0@, opt_view(p.1)))
}

/// The view of a parse of fields.
pub open spec fn fields_result_view(r: Result<Vec<(String, Option<String>)>, String>) -> Result<
    Seq<(Seq<char>, Option<Seq<char>>)>,
    Seq<char>,
> {
    match r {
        Ok(v) => Ok(fields_view(v@)),
        Err(e) => Err(e@),
    }
}

/// Whether no two fields share a name.
pub open spec fn distinct_names<V>(fields: Seq<(Seq<char>, V)>) -> bool {
    forall|i: int, j: int| 0 <= i < j < fields.len() ==> #[trigger] fields[i].0 != #[trigger] fields[j].0
}

/// `serde_json::from_str` into a `serde_json::Value`, then the entries of the
/// object it holds (`as_object`), each value read with `as_str`. The result is
/// a function of the text alone; an object's entries have distinct names, as
/// the keys of a `serde_json::Map` are.
#[verifier::external_body]
fn json_object_fields(content: &str) -> (r: Result<Vec<(String, Option<String>)>, String>)
    ensures
        fields_result_view(r) == json_string_fields(content@),
        r matches Ok(v) ==> distinct_names(fields_view(v@)),
{
    match serde_json::from_str::<serde_json::Value>(content) {
        Ok(value) => Ok(match value.as_object() {
            Some(obj) => obj.iter().map(|(k, v)| (k.clone(), v.as_str().map(|s| s.to_string()))).collect(),
            None => Vec::new(),
        }),
        Err(e) => Err(e.to_string()),
    }
}

/// The string value of the first field named `key` from position `i` on.
pub open spec fn field_from(fields: Seq<(Seq<char>, Option<Seq<char>>)>, key: Seq<char>, i: int) -> Option<Seq<char>>
    decreases fields.len() - i,
{
    if i < 0 || i >= fields.len() {
        None
    } else if fields[i].0 == key {
        fields[i].1
    } else {
        field_from(fields, key, i + 1)
    }
}

/// The string value of the field named `key`, if it has one.
pub open spec fn field_text(fields: Seq<(Seq<char>, Option<Seq<char>>)>, key: Seq<char>) -> Option<Seq<char>> {
    field_from(fields, key, 0)
}

/// The text an option holds, or `default`.
pub open spec fn text_or(o: Option<Seq<char>>, default: Seq<char>) -> Seq<char> {
    match o {
        Some(t) => t,
        None => default,
    }
}

/// The settings that a parsed document gives: the repository and token default
/// to empty text, the branch to `main`.
pub open spec fn settings_of(fields: Seq<(Seq<char>, Option<Seq<char>>)>) -> (Seq<char>, Seq<char>, Seq<char>) {
    (
        text_or(field_text(fields, "repo_url"@), ""@),
        text_or(field_text(fields, "branch"@), "main"@),
        text_or(field_text(fields, "webhook_token"@), ""@),
    )
}

/// The string value of the field named `key` in `fields`.
fn find_field(fields: &Vec<(String, Option<String>)>, key: &str) -> (r: Option<String>)
    ensures
        opt_view(r) == field_text(fields_view(fields@), key@),
{
    let ghost f = fields_view(fields@);
    let k = owned(key);
    let mut i: usize = 0;
    while i < fields.len()
        invariant
            i <= fields@.len(),
            f == fields_view(fields@),
            k@ == key@,
            field_from(f, key@, 0) == field_from(f, key@, i as int),
        decreases fields@.len() - i,
    {
        if fields[i].0 == k {
            return match &fields[i].1 {
                Some(v) => Some(v.clone()),
                None => None,
            };
        }
        i += 1;
    }
    None
}

/// Text, or `default` where there is none.
fn text_or_exec(o: Option<String>, default: &str) -> (r: String)
    ensures
        r@ == text_or(opt_view(o), default@),
{
    match o {
        Some(t) => t,
        None => owned(default),
    }
}

/// The Git settings that the text of a settings file holds; refused, with the
/// parser's message, when the text is not JSON.
pub fn parse_git_settings(content: &str) -> (r: Result<GitSettings, String>)
    ensures
        match json_string_fields(content@) {
            Ok(f) => r matches Ok(s) && settings_view(s) == settings_of(f),
            Err(e) => r matches Err(m) && m@ == "Failed to parse Git config: "@ + e,
        },
{
    match json_object_fields(content) {
        Ok(fields) => {
            let repo_url = text_or_exec(find_field(&fields, "repo_url"), "");
            let branch = text_or_exec(find_field(&fields, "branch"), "main");
            let webhook_token = text_or_exec(find_field(&fields, "webhook_token"), "");
            Ok(GitSettings { repo_url, branch, webhook_token })
        },
        Err(e) => Err(concat("Failed to parse Git config: ", e.as_str())),
    }
}

/// What a settings file shows when it is read: each field with its string
/// value, or empty text where the value is not a string; nothing when the text
/// is not JSON.
pub open spec fn listing_of(content: Seq<char>) -> Seq<(Seq<char>, Seq<char>)> {
    match json_string_fields(content) {
        Ok(f) => f.map_values(|p: (Seq<char>, Option<Seq<char>>)| (p.0, text_or(p.1, ""@))),
        Err(_) => Seq::empty(),
    }
}

/// The fields of a settings file, as they are shown.
pub fn settings_listing(content: &str) -> (r: Vec<(String, String)>)
    ensures
        crate::compose::pairs_view(r@) == listing_of(content@),
        distinct_names(crate::compose::pairs_view(r@)),
{
    match json_object_fields(content) {
        Ok(fields) => {
            let ghost f = fields_view(fields@);
            let mut out: Vec<(String, String)> = Vec::new();
            let mut i: usize = 0;
            while i < fields.len()
                invariant
                    i <= fields@.len(),
                    f == fields_view(fields@),
                    crate::compose::pairs_view(out@) == f.take(i as int).map_values(
                        |p: (Seq<char>, Option<Seq<char>>)| (p.0, text_or(p.1, ""@)),
                    ),
                decreases fields@.len() - i,
            {
                assert(f[i as int] == (fields@[i as int].0@, opt_view(fields@[i as int].1)));
                let value = match &fields[i].1 {
                    Some(v) => v.clone(),
                    None => owned(""),
                };
                assert(value@ == text_or(f[i as int].1, ""@));
                let ghost before = out@;
                out.push((fields[i].0.clone(), value));
                assert(crate::compose::pairs_view(out@) =~= crate::compose::pairs_view(before).push(
                    (f[i as int].0, text_or(f[i as int].1, ""@)),
                ));
                assert(f.take(i + 1) =~= f.take(i as int).push(f[i as int]));
                i += 1;
            }
            assert(f.take(fields@.len() as int) =~= f);
            out
        },
        Err(_) => Vec::new(),
    }
}

/// Why a sync is refused, if it is: a token that differs from the saved one
/// is refused first, then settings without a repository.
pub open spec fn sync_refusal(settings: (Seq<char>, Seq<char>, Seq<char>), token: Seq<char>) -> Option<Seq<char>> {
    if token.len() > 0 && token != settings.2 {
        Some("Unauthorized: Token mismatch"@)
    } else if settings.0.len() == 0 {
        Some("Git repository URL is empty"@)
    } else {
        None
    }
}

/// Why a sync asked with `token` (empty when none was given) is refused, or
/// `None` when it may go on.
pub fn check_sync(settings: &GitSettings, token: &str) -> (r: Option<String>)
    ensures
        opt_view(r) == sync_refusal(settings_view(*settings), token@),
{
    if !token.is_empty() && owned(token) != settings.webhook_token {
        Some(owned("Unauthorized: Token mismatch"))
    } else if settings.repo_url.as_str().is_empty() {
        Some(owned("Git repository URL is empty"))
    } else {
        None
    }
}

/// A sync that carries the saved token, or none, is never refused for its
/// token: it goes on exactly when the settings name a repository.
pub proof fn law_saved_token_accepted(settings: (Seq<char>, Seq<char>, Seq<char>))
    ensures
        sync_refusal(settings, settings.2) == sync_refusal(settings, Seq::<char>::empty()),
        sync_refusal(settings, settings.2) is None <==> settings.0.len() > 0,
{
}

/// The git arguments that bring an existing clone up to `branch`: fetch every
/// remote, then reset hard to the remote branch.
pub open spec fn pull_commands(branch: Seq<char>) -> Seq<Seq<Seq<char>>> {
    seq![seq!["fetch"@, "--all"@], seq!["reset"@, "--hard"@, "origin/"@ + branch]]
}

/// The git arguments that turn an empty directory into a checkout of `branch`
/// of `repo_url`.
pub open spec fn clone_commands(repo_url: Seq<char>, branch: Seq<char>) -> Seq<Seq<Seq<char>>> {
    seq![
        seq!["init"@],
        seq!["remote"@, "add"@, "origin"@, repo_url],
        seq!["fetch"@, "origin"@],
        seq!["checkout"@, "-f"@, branch],
    ]
}

/// The git arguments, in order, that a sync runs in the working tree: a pull
/// where the tree is already a clone (`has_git_dir`), a fresh checkout
/// otherwise.
pub fn sync_commands(has_git_dir: bool, settings: &GitSettings) -> (r: Vec<Vec<String>>)
    ensures
        r@.map_values(|c: Vec<String>| views(c@)) == if has_git_dir {
            pull_commands(settings.branch@)
        } else {
            clone_commands(settings.repo_url@, settings.branch@)
        },
{
    let mut r: Vec<Vec<String>> = Vec::new();
    let b = settings.branch.as_str();
    if has_git_dir {
        let target = concat("origin/", b);
        let c0 = text_args(&["fetch", "--all"]);
        assert(views(c0@) =~= seq!["fetch"@, "--all"@]);
        let c1 = text_args(&["reset", "--hard", target.as_str()]);
        assert(views(c1@) =~= seq!["reset"@, "--hard"@, "origin/"@ + b@]);
        r.push(c0);
        r.push(c1);
        assert(r@.map_values(|c: Vec<String>| views(c@)) =~= pull_commands(settings.branch@));
    } else {
        let c0 = text_args(&["init"]);
        assert(views(c0@) =~= seq!["init"@]);
        let c1 = text_args(&["remote", "add", "origin", settings.repo_url.as_str()]);
        assert(views(c1@) =~= seq!["remote"@, "add"@, "origin"@, settings.repo_url@]);
        let c2 = text_args(&["fetch", "origin"]);
        assert(views(c2@) =~= seq!["fetch"@, "origin"@]);
        let c3 = text_args(&["checkout", "-f", b]);
        assert(views(c3@) =~= seq!["checkout"@, "-f"@, b@]);
        r.push(c0);
        r.push(c1);
        r.push(c2);
        r.push(c3);
        assert(r@.map_values(|c: Vec<String>| views(c@)) =~= clone_commands(
            settings.repo_url@,
            settings.branch@,
        ));
    }
    r
}

/// How a git command ended: it ran and exited, successfully or not, with what
/// it wrote to standard error; or it could not be run.
pub enum CommandOutcome {
    Exited { success: bool, stderr: String },
    NotRun(String),
}

/// The error that the git command `action` ended with, if it failed.
pub open spec fn command_failure(action: Seq<char>, outcome: CommandOutcome) -> Option<Seq<char>> {
    match outcome {
        CommandOutcome::Exited { success, stderr } => if success {
            None
        } else {
            Some("git "@ + action + " failed: "@ + stderr@)
        },
        CommandOutcome::NotRun(e) => Some("Failed to run git "@ + action + ": "@ + e@),
    }
}

/// The error that the fetch of a pull ended with; `None` when the reset is to
/// run next.
pub fn pull_fetch_failure(fetch: &CommandOutcome) -> (r: Option<String>)
    ensures
        opt_view(r) == command_failure("fetch"@, *fetch),
{
    proof {
        reveal_strlit("git ");
        reveal_strlit("fetch");
        reveal_strlit(" failed: ");
        reveal_strlit("git fetch failed: ");
        reveal_strlit("Failed to run git ");
        reveal_strlit(": ");
        reveal_strlit("Failed to run git fetch: ");
        assert("git "@ + "fetch"@ + " failed: "@ =~= "git fetch failed: "@);
        assert("Failed to run git "@ + "fetch"@ + ": "@ =~= "Failed to run git fetch: "@);
    }
    match fetch {
        CommandOutcome::Exited { success, stderr } => if *success {
            None
        } else {
            Some(concat("git fetch failed: ", stderr.as_str()))
        },
        CommandOutcome::NotRun(e) => Some(concat("Failed to run git fetch: ", e.as_str())),
    }
}

/// How a pull ends once its reset has run.
pub fn pull_result(reset: &CommandOutcome) -> (r: Result<String, String>)
    ensures
        match command_failure("reset"@, *reset) {
            Some(e) => r matches Err(m) && m@ == e,
            None => r matches Ok(m) && m@ == "Git pull & reset --hard completed successfully"@,
        },
{
    proof {
        reveal_strlit("git ");
        reveal_strlit("reset");
        reveal_strlit(" failed: ");
        reveal_strlit("git reset failed: ");
        reveal_strlit("Failed to run git ");
        reveal_strlit(": ");
        reveal_strlit("Failed to run git reset: ");
        assert("git "@ + "reset"@ + " failed: "@ =~= "git reset failed: "@);
        assert("Failed to run git "@ + "reset"@ + ": "@ =~= "Failed to run git reset: "@);
    }
    match reset {
        CommandOutcome::Exited { success, stderr } => if *success {
            Ok(owned("Git pull & reset --hard completed successfully"))
        } else {
            Err(concat("git reset failed: ", stderr.as_str()))
        },
        CommandOutcome::NotRun(e) => Err(concat("Failed to run git reset: ", e.as_str())),
    }
}

/// How a fresh checkout ends, given whether each of its commands succeeded:
/// it succeeds when all four did.
pub fn clone_result(succeeded: &Vec<bool>) -> (r: Result<String, String>)
    ensures
        if succeeded@.len() == 4 && forall|i: int| 0 <= i < 4 ==> #[trigger] succeeded@[i] {
            r matches Ok(m) && m@ == "Git clone/checkout completed successfully"@
        } else {
            r matches Err(m) && m@
                == "Git initialization or checkout failed. Please verify the repository URL and permissions."@
        },
{
    let all = succeeded.len() == 4 && succeeded[0] && succeeded[1] && succeeded[2] && succeeded[3];
    if all {
        Ok(owned("Git clone/checkout completed successfully"))
    } else {
        proof {
            if succeeded@.len() == 4 {
                assert(!(succeeded@[0] && succeeded@[1] && succeeded@[2] && succeeded@[3]));
            }
        }
        Err(owned("Git initialization or checkout failed. Please verify the repository URL and permissions."))
    }
}

/// What a sync reports: whether it succeeded, and its message on standard
/// output or standard error.
pub struct SyncReport {
    pub success: bool,
    pub stdout: Option<String>,
    pub stderr: Option<String>,
}

/// The report of a sync that failed with `message`.
pub fn failed_sync(message: String) -> (r: SyncReport)
    ensures
        !r.success,
        r.stdout is None,
        r.stderr == Some(message),
{
    SyncReport { success: false, stdout: None, stderr: Some(message) }
}

/// The report of a process's sync once the tree is updated (`git_message`) and
/// the process was restarted, or failed to restart.
pub fn process_sync_report(git_message: &str, restart: &Result<(), String>) -> (r: SyncReport)
    ensures
        match restart {
            Ok(_) => r.success && opt_view(r.stdout) == Some(git_message@ + "\n\nProcess restarted successfully"@)
                && r.stderr is None,
            Err(e) => !r.success && r.stdout is None && opt_view(r.stderr) == Some(
                "Git pulled but process restart failed: "@ + e@,
            ),
        },
{
    match restart {
        Ok(_) => SyncReport {
            success: true,
            stdout: Some(concat(git_message, "\n\nProcess restarted successfully")),
            stderr: None,
        },
        Err(e) => SyncReport {
            success: false,
            stdout: None,
            stderr: Some(concat("Git pulled but process restart failed: ", e.as_str())),
        },
    }
}

/// The report of a compose project's sync once the tree is updated
/// (`git_message`): with the project brought up again (`up`), or failing to,
/// or with no compose file to bring up (`None`).
pub fn compose_sync_report(git_message: &str, up: &Option<Result<String, String>>) -> (r: SyncReport)
    ensures
        match up {
            Some(Ok(m)) => r.success && opt_view(r.stdout) == Some(git_message@ + "\n\n"@ + m@) && r.stderr is None,
            Some(Err(e)) => !r.success && r.stdout is None && opt_view(r.stderr) == Some(
                "Git pulled but compose restart failed: "@ + e@,
            ),
            None => r.success && opt_view(r.stdout) == Some(
                git_message@ + " (Note: No docker-compose.yml to restart)"@,
            ) && r.stderr is None,
        },
{
    match up {
        Some(Ok(m)) => SyncReport {
            success: true,
            stdout: Some(concat3(git_message, "\n\n", m.as_str())),
            stderr: None,
        },
        Some(Err(e)) => SyncReport {
            success: false,
            stdout: None,
            stderr: Some(concat("Git pulled but compose restart failed: ", e.as_str())),
        },
        None => SyncReport {
            success: true,
            stdout: Some(concat(git_message, " (Note: No docker-compose.yml to restart)")),
            stderr: None,
        },
    }
}

/// The directory of compose project `project` under the data directory.
pub fn compose_project_dir(data_dir: &str, project: &str) -> (r: String)
    ensures
        r@ == path_join(path_join(data_dir@, "compose"@), project@),
{
    let c = join_path(data_dir, "compose");
    join_path(c.as_str(), project)
}

/// The volume that holds the working tree of compose project `project`:
/// `volumes/<project>_app_data` under the data directory.
pub fn compose_app_volume(data_dir: &str, project: &str) -> (r: String)
    ensures
        r@ == path_join(path_join(data_dir@, "volumes"@), project@ + "_app_data"@),
{
    let v = join_path(data_dir, "volumes");
    let name = concat(project, "_app_data");
    join_path(v.as_str(), name.as_str())
}

/// The pretty-printed JSON object with the string fields `fields`.
pub uninterp spec fn pretty_json_object(fields: Seq<(Seq<char>, Seq<char>)>) -> Option<Seq<char>>;

/// The value of the last of `fields` named `key`.
pub open spec fn last_value(fields: Seq<(Seq<char>, Seq<char>)>, key: Seq<char>) -> Option<Seq<char>>
    decreases fields.len(),
{
    if fields.len() == 0 {
        None
    } else if fields.last().0 == key {
        Some(fields.last().1)
    } else {
        last_value(fields.drop_last(), key)
    }
}

/// `serde_json::to_string_pretty` of a `serde_json::Value::Object` that holds
/// each of `fields` as a string (a later field of the same name replaces an
/// earlier one); `None` when serialisation fails. The result is a function of
/// the fields alone, and `serde_json::from_str` reads it back as an object in
/// which each name has the string value of its last field (the object's
/// entries are ordered by the map, so their order is left open).
#[verifier::external_body]
fn pretty_object_text(fields: &Vec<(String, String)>) -> (r: Option<String>)
    ensures
        opt_view(r) == pretty_json_object(crate::compose::pairs_view(fields@)),
        r matches Some(t) ==> json_string_fields(t@) matches Ok(parsed) && distinct_names(parsed) && (forall|i: int|
            0 <= i < parsed.len() ==> (#[trigger] parsed[i]).1 is Some) && forall|key: Seq<char>|
            #[trigger] field_text(parsed, key) == last_value(crate::compose::pairs_view(fields@), key),
{
    let mut map = serde_json::Map::new();
    for (k, v) in fields {
        map.insert(k.clone(), serde_json::Value::String(v.clone()));
    }
    serde_json::to_string_pretty(&serde_json::Value::Object(map)).ok()
}

/// Whether `listing` shows exactly `fields`: no name twice, each shown name
/// with the value of its field, and every field shown.
pub open spec fn shows_fields(listing: Seq<(Seq<char>, Seq<char>)>, fields: Seq<(Seq<char>, Seq<char>)>) -> bool {
    &&& distinct_names(listing)
    &&& forall|i: int| 0 <= i < listing.len() ==> last_value(fields, (#[trigger] listing[i]).0) == Some(listing[i].1)
    &&& forall|j: int|
        0 <= j < fields.len() ==> exists|i: int| 0 <= i < listing.len() && #[trigger] listing[i].0 == (#[trigger] fields[j]).0
}

/// With distinct names, the search for a field's name finds that field.
proof fn lemma_field_from_distinct(f: Seq<(Seq<char>, Option<Seq<char>>)>, m: int, i: int)
    requires
        distinct_names(f),
        0 <= i <= m < f.len(),
    ensures
        field_from(f, f[m].0, i) == f[m].1,
    decreases m - i,
{
    if i < m {
        assert(f[i].0 != f[m].0);
        lemma_field_from_distinct(f, m, i + 1);
    }
}

/// A name that the search finds belongs to some field.
proof fn lemma_field_from_found(f: Seq<(Seq<char>, Option<Seq<char>>)>, key: Seq<char>, i: int)
    requires
        field_from(f, key, i) is Some,
    ensures
        exists|m: int| i <= m < f.len() && #[trigger] f[m].0 == key,
    decreases f.len() - i,
{
    if 0 <= i < f.len() && f[i].0 != key {
        lemma_field_from_found(f, key, i + 1);
    }
}

/// Every field's name has a last value.
proof fn lemma_last_value_present(fields: Seq<(Seq<char>, Seq<char>)>, j: int)
    requires
        0 <= j < fields.len(),
    ensures
        last_value(fields, fields[j].0) is Some,
    decreases fields.len(),
{
    if fields.last().0 != fields[j].0 {
        assert(j < fields.len() - 1);
        assert(fields.drop_last()[j] == fields[j]);
        lemma_last_value_present(fields.drop_last(), j);
    }
}

/// The fields that a settings file stores, in this order.
pub open spec fn settings_fields(repo_url: Seq<char>, branch: Seq<char>, webhook_token: Seq<char>) -> Seq<
    (Seq<char>, Seq<char>),
> {
    seq![("repo_url"@, repo_url), ("branch"@, branch), ("webhook_token"@, webhook_token)]
}

/// The text of the settings file that stores these settings; read back, it
/// gives these settings.
pub fn settings_document(settings: &GitSettings) -> (r: Option<String>)
    ensures
        opt_view(r) == pretty_json_object(
            settings_fields(settings.repo_url@, settings.branch@, settings.webhook_token@),
        ),
        r matches Some(t) ==> json_string_fields(t@) matches Ok(parsed) && settings_of(parsed) == settings_view(
            *settings,
        ),
        r matches Some(t) ==> shows_fields(
            listing_of(t@),
            settings_fields(settings.repo_url@, settings.branch@, settings.webhook_token@),
        ),
{
    let mut fields: Vec<(String, String)> = Vec::new();
    fields.push((owned("repo_url"), settings.repo_url.clone()));
    fields.push((owned("branch"), settings.branch.clone()));
    fields.push((owned("webhook_token"), settings.webhook_token.clone()));
    assert(crate::compose::pairs_view(fields@) =~= settings_fields(
        settings.repo_url@,
        settings.branch@,
        settings.webhook_token@,
    ));
    let r = pretty_object_text(&fields);
    proof {
        reveal_strlit("repo_url");
        reveal_strlit("branch");
        reveal_strlit("webhook_token");
        let f = settings_fields(settings.repo_url@, settings.branch@, settings.webhook_token@);
        assert(f.drop_last() =~= seq![("repo_url"@, settings.repo_url@), ("branch"@, settings.branch@)]);
        assert(f.drop_last().drop_last() =~= seq![("repo_url"@, settings.repo_url@)]);
        assert(f.drop_last().drop_last().drop_last() =~= Seq::<(Seq<char>, Seq<char>)>::empty());
        assert(last_value(f, "webhook_token"@) == Some(settings.webhook_token@));
        assert("webhook_token"@.len() == 13 && "branch"@.len() == 6 && "repo_url"@.len() == 8);
        assert(f.last().0 == "webhook_token"@ && f.drop_last().last().0 == "branch"@);
        assert(last_value(f.drop_last(), "branch"@) == Some(settings.branch@));
        assert(last_value(f, "branch"@) == Some(settings.branch@));
        assert(last_value(f.drop_last().drop_last(), "repo_url"@) == Some(settings.repo_url@));
        assert(last_value(f.drop_last(), "repo_url"@) == Some(settings.repo_url@));
        assert(last_value(f, "repo_url"@) == Some(settings.repo_url@));
        if r is Some {
            let t = r->Some_0;
            if json_string_fields(t@) is Ok {
                let parsed = json_string_fields(t@)->Ok_0;
                assert(field_text(parsed, "repo_url"@) == Some(settings.repo_url@));
                assert(field_text(parsed, "branch"@) == Some(settings.branch@));
                assert(field_text(parsed, "webhook_token"@) == Some(settings.webhook_token@));
                let l = listing_of(t@);
                assert(l == parsed.map_values(|p: (Seq<char>, Option<Seq<char>>)| (p.0, text_or(p.1, ""@))));
                assert forall|i: int| 0 <= i < l.len() implies last_value(f, (#[trigger] l[i]).0) == Some(l[i].1) by {
                    lemma_field_from_distinct(parsed, i, 0);
                    assert(parsed[i].1 is Some);
                    assert(field_text(parsed, parsed[i].0) == parsed[i].1);
                    assert(l[i] == (parsed[i].0, text_or(parsed[i].1, ""@)));
                }
                assert forall|j: int| 0 <= j < f.len() implies exists|i: int|
                    0 <= i < l.len() && #[trigger] l[i].0 == (#[trigger] f[j]).0 by {
                    lemma_last_value_present(f, j);
                    assert(field_text(parsed, f[j].0) is Some);
                    lemma_field_from_found(parsed, f[j].0, 0);
                    let m = choose|m: int| 0 <= m < parsed.len() && #[trigger] parsed[m].0 == f[j].0;
                    assert(l[m].0 == f[j].0);
                }
                assert(distinct_names(l)) by {
                    assert forall|a: int, b: int| 0 <= a < b < l.len() implies #[trigger] l[a].0 != #[trigger] l[b].0 by {
                        assert(parsed[a].0 != parsed[b].0);
                    }
                }
            }
        }
    }
    r
}

} // verus!
